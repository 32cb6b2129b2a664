//! The registry: the records of every type, field and computed field, the
//! index from type names to records, and what holds of a registry that
//! was only ever changed through this crate.

use vstd::prelude::*;
use vstd::hash_map::StringHashMap;
use crate::common::{Span, WithLocation, WithSpan};
use crate::graphql_types::{
    GraphQLDirective, GraphQLInputValueDefinition, NamedTypeAnnotation, NonNullTypeAnnotation,
    TypeAnnotation, description_view,
};
use crate::lang_types::{
    DefinedField, DefinedTypeId, ObjectId, ResolverFieldId, ScalarFieldSelection,
    ScalarFieldSelectionView, ScalarId, ServerFieldId, ServerIdFieldId, opt_view, seq_view,
};

verus! {

/// The name of the field that the registry adds to every object.
pub open spec fn typename_field_name() -> Seq<char> {
    "typename"@
}

/// The name of the computed field that the registry adds to every object
/// with an identifier field.
pub open spec fn refetch_field_name() -> Seq<char> {
    "refetch"@
}

/// The name that makes a field an identifier field.
pub open spec fn id_field_name() -> Seq<char> {
    "id"@
}

/// The name of the type that an identifier field must have.
pub open spec fn id_type_name() -> Seq<char> {
    "ID"@
}

/// The name of the type of the field that the registry adds.
pub open spec fn string_type_name() -> Seq<char> {
    "String"@
}

/// The name of the object that queries start from.
pub open spec fn query_type_name() -> Seq<char> {
    "Query"@
}

/// The name of the object that mutations start from.
pub open spec fn mutation_type_name() -> Seq<char> {
    "Mutation"@
}

/// The name of the host type that every declared scalar maps to.
pub open spec fn string_javascript_type() -> Seq<char> {
    "string"@
}

/// The description of the computed field that the registry adds.
pub open spec fn refetch_description() -> Seq<char> {
    "A refetch field for this object."@
}

/// The names that the registry reserves differ from one another and from
/// the name of an identifier field.
pub proof fn lemma_reserved_names_differ()
    ensures
        typename_field_name() != refetch_field_name(),
        typename_field_name() != id_field_name(),
        refetch_field_name() != id_field_name(),
        query_type_name() != mutation_type_name(),
{
    reveal_strlit("typename");
    reveal_strlit("refetch");
    reveal_strlit("id");
    reveal_strlit("Query");
    reveal_strlit("Mutation");
    assert("typename"@.len() == 8);
    assert("refetch"@.len() == 7);
    assert("id"@.len() == 2);
    assert("Query"@.len() == 5);
    assert("Mutation"@.len() == 8);
}

/// How much a rule that can be relaxed is enforced.
#[derive(Clone, Copy, Debug, PartialEq, Eq)]
pub enum OptionalValidationLevel {
    /// A breach is accepted in silence.
    Ignore,
    /// A breach is accepted; it is worth a warning.
    Warn,
    /// A breach is an error.
    Error,
}

impl OptionalValidationLevel {
    /// Whether a breach of the rule ends the call.
    pub open spec fn is_fatal(self) -> bool {
        self is Error
    }
}

/// The options that a caller sets.
#[derive(Clone, Copy, Debug, PartialEq, Eq)]
pub struct ConfigOptions {
    /// What happens where an identifier field is not of the non-null
    /// identifier type.
    pub on_invalid_id_type: OptionalValidationLevel,
}

/// An object that a supertype can be narrowed to.
#[derive(Clone, Copy, Debug, PartialEq, Eq)]
pub struct ValidRefinement {
    pub target: ObjectId,
}

/// What kind of computed field a resolver is.
#[derive(Clone, Copy, Debug, PartialEq, Eq)]
pub enum ResolverVariant {
    Component,
    Eager,
    RefetchField,
}

/// What reading a computed field does.
#[derive(Clone, Copy, Debug, PartialEq, Eq)]
pub enum ResolverActionKind {
    /// It calls a function that the user wrote.
    NamedImport,
    /// It fetches the object again. Such a field cannot be fetched by
    /// itself.
    RefetchField,
}

/// The object and the field that a resolver is known by.
#[derive(Debug, PartialEq, Eq)]
pub struct ResolverTypeAndField {
    pub parent_type: String,
    pub field_name: String,
}

/// What a [`ResolverTypeAndField`] stands for in contracts.
pub struct ResolverTypeAndFieldView {
    pub parent_type: Seq<char>,
    pub field_name: Seq<char>,
}

impl View for ResolverTypeAndField {
    type V = ResolverTypeAndFieldView;

    open spec fn view(&self) -> ResolverTypeAndFieldView {
        ResolverTypeAndFieldView { parent_type: self.parent_type@, field_name: self.field_name@ }
    }
}

/// The record of a scalar.
#[derive(Debug, PartialEq, Eq)]
pub struct SchemaScalar {
    pub description: Option<WithSpan<String>>,
    pub name: WithLocation<String>,
    pub id: ScalarId,
    /// The host type that values of the scalar have.
    pub javascript_name: String,
}

/// What a [`SchemaScalar`] stands for in contracts.
pub struct ScalarView {
    pub description: Option<WithSpan<Seq<char>>>,
    pub name: WithLocation<Seq<char>>,
    pub id: ScalarId,
    pub javascript_name: Seq<char>,
}

impl View for SchemaScalar {
    type V = ScalarView;

    open spec fn view(&self) -> ScalarView {
        ScalarView {
            description: description_view(self.description),
            name: self.name@,
            id: self.id,
            javascript_name: self.javascript_name@,
        }
    }
}

/// The record of a field that the server provides.
#[derive(Debug, PartialEq, Eq)]
pub struct SchemaServerField {
    pub description: Option<String>,
    pub name: WithLocation<String>,
    pub id: ServerFieldId,
    /// The type of the field, as it was written.
    pub associated_data: TypeAnnotation<String>,
    pub parent_type_id: ObjectId,
    pub arguments: Vec<WithLocation<GraphQLInputValueDefinition>>,
}

/// What a [`SchemaServerField`] stands for in contracts. The arguments are
/// carried as they are.
pub struct ServerFieldView {
    pub description: Option<Seq<char>>,
    pub name: WithLocation<Seq<char>>,
    pub id: ServerFieldId,
    pub associated_data: TypeAnnotation<Seq<char>>,
    pub parent_type_id: ObjectId,
    pub arguments: Seq<WithLocation<GraphQLInputValueDefinition>>,
}

impl View for SchemaServerField {
    type V = ServerFieldView;

    open spec fn view(&self) -> ServerFieldView {
        ServerFieldView {
            description: opt_view(self.description),
            name: self.name@,
            id: self.id,
            associated_data: self.associated_data@,
            parent_type_id: self.parent_type_id,
            arguments: self.arguments@,
        }
    }
}

/// The record of a computed field.
#[derive(Debug, PartialEq, Eq)]
pub struct SchemaResolver {
    pub description: Option<String>,
    pub name: String,
    pub id: ResolverFieldId,
    /// What the field selects; absent until it is known.
    pub selection_set: Option<Vec<WithSpan<ScalarFieldSelection>>>,
    pub variant: ResolverVariant,
    pub type_and_field: ResolverTypeAndField,
    pub parent_object_id: ObjectId,
    pub action_kind: ResolverActionKind,
}

/// What a [`SchemaResolver`] stands for in contracts.
pub struct ResolverView {
    pub description: Option<Seq<char>>,
    pub name: Seq<char>,
    pub id: ResolverFieldId,
    pub selection_set: Option<Seq<WithSpan<ScalarFieldSelectionView>>>,
    pub variant: ResolverVariant,
    pub type_and_field: ResolverTypeAndFieldView,
    pub parent_object_id: ObjectId,
    pub action_kind: ResolverActionKind,
}

/// The view of an optional selection set.
pub open spec fn selection_set_view(s: Option<Vec<WithSpan<ScalarFieldSelection>>>) -> Option<
    Seq<WithSpan<ScalarFieldSelectionView>>,
> {
    match s {
        Some(selections) => Some(seq_view(selections@)),
        None => None,
    }
}

impl View for SchemaResolver {
    type V = ResolverView;

    open spec fn view(&self) -> ResolverView {
        ResolverView {
            description: opt_view(self.description),
            name: self.name@,
            id: self.id,
            selection_set: selection_set_view(self.selection_set),
            variant: self.variant,
            type_and_field: self.type_and_field@,
            parent_object_id: self.parent_object_id,
            action_kind: self.action_kind,
        }
    }
}

/// The record of an object. Interfaces, input objects and unions are
/// objects too.
pub struct SchemaObject {
    pub description: Option<String>,
    pub name: WithLocation<String>,
    pub id: ObjectId,
    /// The fields that the server provides, in the order of their
    /// declaration; the field that the registry adds comes last.
    pub server_fields: Vec<ServerFieldId>,
    /// The computed fields.
    pub resolvers: Vec<ResolverFieldId>,
    /// What each field name of the object resolves to.
    pub encountered_fields: StringHashMap<DefinedField>,
    /// The objects that this one can be narrowed to.
    pub valid_refinements: Vec<ValidRefinement>,
    /// The identifier field, where the object has one.
    pub id_field: Option<ServerIdFieldId>,
    pub directives: Vec<GraphQLDirective>,
}

/// What a [`SchemaObject`] stands for in contracts. The directives are
/// carried as they are.
pub struct ObjectView {
    pub description: Option<Seq<char>>,
    pub name: WithLocation<Seq<char>>,
    pub id: ObjectId,
    pub server_fields: Seq<ServerFieldId>,
    pub resolvers: Seq<ResolverFieldId>,
    pub encountered_fields: Map<Seq<char>, DefinedField>,
    pub valid_refinements: Seq<ValidRefinement>,
    pub id_field: Option<ServerIdFieldId>,
    pub directives: Seq<GraphQLDirective>,
}

impl View for SchemaObject {
    type V = ObjectView;

    open spec fn view(&self) -> ObjectView {
        ObjectView {
            description: opt_view(self.description),
            name: self.name@,
            id: self.id,
            server_fields: self.server_fields@,
            resolvers: self.resolvers@,
            encountered_fields: self.encountered_fields@,
            valid_refinements: self.valid_refinements@,
            id_field: self.id_field,
            directives: self.directives@,
        }
    }
}

/// The type of the field that the registry adds: the string type, not
/// null.
pub open spec fn typename_type() -> TypeAnnotation<Seq<char>> {
    TypeAnnotation::NonNull(
        Box::new(
            NonNullTypeAnnotation::Named(
                NamedTypeAnnotation(
                    WithSpan { item: string_type_name(), span: Span::spec_todo_generated() },
                ),
            ),
        ),
    )
}

/// Whether a type is written as the identifier type, not null.
pub open spec fn is_non_null_id_type(t: TypeAnnotation<Seq<char>>) -> bool {
    match t.spec_inner_non_null_named_type() {
        Some(named) => named.0.item == id_type_name(),
        None => false,
    }
}

/// Whether a computed field is the one that the registry adds to the
/// object `parent`: it is named for refetching, selects the identifier
/// field and nothing else, and cannot be fetched by itself.
pub open spec fn is_refetch_resolver(r: ResolverView, parent: ObjectId) -> bool {
    &&& r.name == refetch_field_name()
    &&& r.variant == ResolverVariant::RefetchField
    &&& r.action_kind == ResolverActionKind::RefetchField
    &&& r.parent_object_id == parent
    &&& r.selection_set matches Some(selections)
    &&& selections.len() == 1
    &&& selections[0].item.name.item == id_field_name()
}

/// The whole registry as contracts see it.
pub struct SchemaView {
    pub fields: Seq<ServerFieldView>,
    pub resolvers: Seq<ResolverView>,
    pub objects: Seq<ObjectView>,
    pub scalars: Seq<ScalarView>,
    pub defined_types: Map<Seq<char>, DefinedTypeId>,
    pub query_type_id: Option<ObjectId>,
}

impl SchemaView {
    /// The registry with nothing in it.
    pub open spec fn empty() -> SchemaView {
        SchemaView {
            fields: Seq::empty(),
            resolvers: Seq::empty(),
            objects: Seq::empty(),
            scalars: Seq::empty(),
            defined_types: Map::empty(),
            query_type_id: None,
        }
    }

    /// Every collection is short enough for its indices to be handles.
    pub open spec fn bounded(self) -> bool {
        &&& self.fields.len() <= usize::MAX
        &&& self.resolvers.len() <= usize::MAX
        &&& self.objects.len() <= usize::MAX
        &&& self.scalars.len() <= usize::MAX
    }

    /// What a type name resolves to.
    pub open spec fn lookup(self, name: Seq<char>) -> Option<DefinedTypeId> {
        if self.defined_types.contains_key(name) {
            Some(self.defined_types[name])
        } else {
            None
        }
    }

    /// Whether `id` is the handle of an object under the name `name`.
    pub open spec fn is_object_named(self, id: ObjectId, name: Seq<char>) -> bool {
        &&& id.0 < self.objects.len()
        &&& self.objects[id.0 as int].name.item == name
    }

    /// Whether `id` is the handle of a scalar under the name `name`.
    pub open spec fn is_scalar_named(self, id: ScalarId, name: Seq<char>) -> bool {
        &&& id.0 < self.scalars.len()
        &&& self.scalars[id.0 as int].name.item == name
    }

    /// Every name of the index resolves to a record under that name.
    pub open spec fn index_resolves(self) -> bool {
        forall|name: Seq<char>| #[trigger]
            self.defined_types.contains_key(name) ==> match self.defined_types[name] {
                DefinedTypeId::Object(id) => self.is_object_named(id, name),
                DefinedTypeId::Scalar(id) => self.is_scalar_named(id, name),
            }
    }

    /// Every object has its index as its handle and is found under its
    /// name.
    pub open spec fn objects_indexed(self) -> bool {
        forall|i: int|
            0 <= i < self.objects.len() ==> {
                let o = #[trigger] self.objects[i];
                &&& o.id.0 == i
                &&& self.lookup(o.name.item) == Some(DefinedTypeId::Object(o.id))
            }
    }

    /// Every scalar has its index as its handle and is found under its
    /// name.
    pub open spec fn scalars_indexed(self) -> bool {
        forall|i: int|
            0 <= i < self.scalars.len() ==> {
                let s = #[trigger] self.scalars[i];
                &&& s.id.0 == i
                &&& self.lookup(s.name.item) == Some(DefinedTypeId::Scalar(s.id))
            }
    }

    /// Every field and every computed field has its index as its handle
    /// and belongs to an object of the registry.
    pub open spec fn fields_indexed(self) -> bool {
        &&& forall|i: int|
            0 <= i < self.fields.len() ==> {
                let f = #[trigger] self.fields[i];
                f.id.0 == i && f.parent_type_id.0 < self.objects.len()
            }
        &&& forall|i: int|
            0 <= i < self.resolvers.len() ==> {
                let r = #[trigger] self.resolvers[i];
                r.id.0 == i && r.parent_object_id.0 < self.objects.len()
            }
    }

    /// Whether `f` is the handle of a field of `o` that the name index of
    /// `o` leads back to.
    pub open spec fn owns_server_field(self, o: ObjectView, f: ServerFieldId) -> bool {
        &&& f.0 < self.fields.len()
        &&& self.fields[f.0 as int].parent_type_id == o.id
        &&& o.encountered_fields.contains_key(self.fields[f.0 as int].name.item)
        &&& o.encountered_fields[self.fields[f.0 as int].name.item] == DefinedField::ServerField(
            f,
        )
    }

    /// Whether `r` is the handle of a computed field of `o` that the name
    /// index of `o` leads back to.
    pub open spec fn owns_resolver(self, o: ObjectView, r: ResolverFieldId) -> bool {
        &&& r.0 < self.resolvers.len()
        &&& self.resolvers[r.0 as int].parent_object_id == o.id
        &&& o.encountered_fields.contains_key(self.resolvers[r.0 as int].name)
        &&& o.encountered_fields[self.resolvers[r.0 as int].name] == DefinedField::ResolverField(
            r,
        )
    }

    /// The fields of `o` are fields of the registry in rising order, each
    /// under a name of its own, and the last of them, the one with the
    /// highest handle, is the field that the registry adds.
    pub open spec fn server_fields_wf(self, o: ObjectView) -> bool {
        &&& o.server_fields.len() > 0
        &&& forall|k: int|
            0 <= k < o.server_fields.len() ==> self.owns_server_field(
                o,
                #[trigger] o.server_fields[k],
            )
        &&& forall|j: int, k: int|
            0 <= j < k < o.server_fields.len() ==> (#[trigger] o.server_fields[j]).0 < (
            #[trigger] o.server_fields[k]).0
        &&& {
            let last = self.fields[o.server_fields.last().0 as int];
            &&& last.name.item == typename_field_name()
            &&& last.associated_data == typename_type()
        }
    }

    /// An object with an identifier field has that field among its fields,
    /// under the name of identifier fields, and has exactly one computed
    /// field for refetching. An object without one has no such computed
    /// field.
    pub open spec fn id_field_wf(self, o: ObjectView) -> bool {
        &&& forall|k: int|
            0 <= k < o.resolvers.len() ==> self.owns_resolver(o, #[trigger] o.resolvers[k])
        &&& match o.id_field {
            Some(id) => {
                &&& o.server_fields.contains(ServerFieldId(id.0))
                &&& id.0 < self.fields.len()
                &&& self.fields[id.0 as int].name.item == id_field_name()
                &&& o.encountered_fields.contains_key(refetch_field_name())
                &&& o.encountered_fields[refetch_field_name()] matches DefinedField::ResolverField(
                    r,
                )
                &&& o.resolvers.contains(r)
                &&& r.0 < self.resolvers.len()
                &&& is_refetch_resolver(self.resolvers[r.0 as int], o.id)
                &&& forall|k: int|
                    0 <= k < o.resolvers.len() && self.resolvers[(
                    #[trigger] o.resolvers[k]).0 as int].variant == ResolverVariant::RefetchField
                        ==> o.resolvers[k] == r
            },
            None => forall|k: int|
                0 <= k < o.resolvers.len() ==> self.resolvers[(
                #[trigger] o.resolvers[k]).0 as int].variant != ResolverVariant::RefetchField,
        }
    }

    /// What holds of every object of the registry.
    pub open spec fn object_wf(self, o: ObjectView) -> bool {
        &&& self.server_fields_wf(o)
        &&& self.id_field_wf(o)
        &&& forall|k: int|
            0 <= k < o.valid_refinements.len() ==> (#[trigger] o.valid_refinements[k]).target.0
                < self.objects.len()
    }

    /// The root of queries is the object under the name of that root, and
    /// there is none where no object has that name.
    pub open spec fn roots_wf(self) -> bool {
        &&& match self.query_type_id {
            Some(id) => self.is_object_named(id, query_type_name()),
            None => true,
        }
        &&& forall|i: int|
            0 <= i < self.objects.len() && (#[trigger] self.objects[i]).name.item
                == query_type_name() ==> self.query_type_id == Some(self.objects[i].id)
    }

    /// What holds of a registry that was only ever changed through this
    /// crate: names are unique, handles are indices, and every object has
    /// the fields that the registry adds.
    pub open spec fn wf(self) -> bool {
        &&& self.bounded()
        &&& self.index_resolves()
        &&& self.objects_indexed()
        &&& self.scalars_indexed()
        &&& self.fields_indexed()
        &&& self.roots_wf()
        &&& forall|i: int| 0 <= i < self.objects.len() ==> self.object_wf(#[trigger] self.objects[i])
    }
}

/// The records of all types and the index from names to them.
pub struct SchemaData {
    pub objects: Vec<SchemaObject>,
    pub scalars: Vec<SchemaScalar>,
    pub defined_types: StringHashMap<DefinedTypeId>,
}

/// The registry while it is built.
pub struct UnvalidatedSchema {
    pub fields: Vec<SchemaServerField>,
    pub resolvers: Vec<SchemaResolver>,
    pub schema_data: SchemaData,
    /// The object that queries start from, where one was registered.
    pub query_type_id: Option<ObjectId>,
}

impl View for UnvalidatedSchema {
    type V = SchemaView;

    open spec fn view(&self) -> SchemaView {
        SchemaView {
            fields: seq_view(self.fields@),
            resolvers: seq_view(self.resolvers@),
            objects: seq_view(self.schema_data.objects@),
            scalars: seq_view(self.schema_data.scalars@),
            defined_types: self.schema_data.defined_types@,
            query_type_id: self.query_type_id,
        }
    }
}

impl UnvalidatedSchema {
    /// The collections of a registry in memory are short enough for their
    /// indices to be handles.
    pub proof fn lemma_bounded(&self)
        ensures
            self@.bounded(),
    {
        assert(self.fields.len() == self.fields@.len());
        assert(self.resolvers.len() == self.resolvers@.len());
        assert(self.schema_data.objects.len() == self.schema_data.objects@.len());
        assert(self.schema_data.scalars.len() == self.schema_data.scalars@.len());
    }

    /// The registry with nothing in it.
    pub fn new() -> (schema: UnvalidatedSchema)
        ensures
            schema@ == SchemaView::empty(),
            schema@.wf(),
    {
        let schema = UnvalidatedSchema {
            fields: Vec::new(),
            resolvers: Vec::new(),
            schema_data: SchemaData {
                objects: Vec::new(),
                scalars: Vec::new(),
                defined_types: StringHashMap::new(),
            },
            query_type_id: None,
        };
        assert(schema@.fields =~= Seq::empty());
        assert(schema@.resolvers =~= Seq::empty());
        assert(schema@.objects =~= Seq::empty());
        assert(schema@.scalars =~= Seq::empty());
        schema
    }
}

} // verus!
