//! The operations of the registry: registering a record under its name,
//! and finding a record by its name or by its handle.

use vstd::prelude::*;
use crate::common::WithLocation;
use crate::error::ProcessTypeDefinitionError;
use crate::lang_types::{DefinedTypeId, ObjectId, ScalarId, lemma_seq_view_push, seq_view};
use crate::model::duplicate_type_error;
use crate::schema::{ObjectView, ScalarView, SchemaData, SchemaObject, SchemaScalar};

verus! {

impl SchemaData {
    /// Registers a scalar under its name, with the next handle, which is
    /// written to the record and returned. A name that is registered
    /// already is an error, and then nothing is changed.
    pub fn register_scalar(&mut self, scalar: SchemaScalar) -> (result: Result<
        ScalarId,
        WithLocation<ProcessTypeDefinitionError>,
    >)
        ensures
            match result {
                Ok(id) => {
                    &&& !old(self).defined_types@.contains_key(scalar.name.item@)
                    &&& id == ScalarId(old(self).scalars@.len() as usize)
                    &&& seq_view(final(self).scalars@) == seq_view(old(self).scalars@).push(
                        ScalarView { id, ..scalar@ },
                    )
                    &&& final(self).defined_types@ == old(self).defined_types@.insert(
                        scalar.name.item@,
                        DefinedTypeId::Scalar(id),
                    )
                    &&& final(self).objects == old(self).objects
                },
                Err(e) => {
                    &&& old(self).defined_types@.contains_key(scalar.name.item@)
                    &&& e@ == duplicate_type_error("scalar"@, scalar.name@)
                    &&& *final(self) == *old(self)
                },
            },
    {
        if self.defined_types.contains_key(scalar.name.item.as_str()) {
            let location = scalar.name.location;
            return Err(
                WithLocation::new(
                    ProcessTypeDefinitionError::DuplicateTypeDefinition {
                        type_definition_type: "scalar",
                        name: scalar.name.item,
                    },
                    location,
                ),
            );
        }
        let id = ScalarId(self.scalars.len());
        self.defined_types.insert(scalar.name.item.clone(), DefinedTypeId::Scalar(id));
        let record = SchemaScalar { id, ..scalar };
        proof {
            lemma_seq_view_push(self.scalars@, record);
        }
        self.scalars.push(record);
        Ok(id)
    }

    /// Registers an object under its name, with the next handle, which is
    /// written to the record and returned. A name that is registered
    /// already is an error, and then nothing is changed.
    pub fn register_object(&mut self, object: SchemaObject) -> (result: Result<
        ObjectId,
        WithLocation<ProcessTypeDefinitionError>,
    >)
        ensures
            match result {
                Ok(id) => {
                    &&& !old(self).defined_types@.contains_key(object.name.item@)
                    &&& id == ObjectId(old(self).objects@.len() as usize)
                    &&& seq_view(final(self).objects@) == seq_view(old(self).objects@).push(
                        ObjectView { id, ..object@ },
                    )
                    &&& final(self).defined_types@ == old(self).defined_types@.insert(
                        object.name.item@,
                        DefinedTypeId::Object(id),
                    )
                    &&& final(self).scalars == old(self).scalars
                },
                Err(e) => {
                    &&& old(self).defined_types@.contains_key(object.name.item@)
                    &&& e@ == duplicate_type_error("object"@, object.name@)
                    &&& *final(self) == *old(self)
                },
            },
    {
        if self.defined_types.contains_key(object.name.item.as_str()) {
            let location = object.name.location;
            return Err(
                WithLocation::new(
                    ProcessTypeDefinitionError::DuplicateTypeDefinition {
                        type_definition_type: "object",
                        name: object.name.item,
                    },
                    location,
                ),
            );
        }
        let id = ObjectId(self.objects.len());
        self.defined_types.insert(object.name.item.clone(), DefinedTypeId::Object(id));
        let record = SchemaObject { id, ..object };
        proof {
            lemma_seq_view_push(self.objects@, record);
        }
        self.objects.push(record);
        Ok(id)
    }

    /// What a type name resolves to.
    pub fn lookup(&self, name: &str) -> (found: Option<DefinedTypeId>)
        ensures
            found == (if self.defined_types@.contains_key(name@) {
                Some(self.defined_types@[name@])
            } else {
                None
            }),
    {
        match self.defined_types.get(name) {
            Some(id) => Some(*id),
            None => None,
        }
    }

    /// The record of an object.
    pub fn object(&self, id: ObjectId) -> (object: &SchemaObject)
        requires
            id.0 < self.objects@.len(),
        ensures
            *object == self.objects@[id.0 as int],
    {
        &self.objects[id.0]
    }

    /// The record of a scalar.
    pub fn scalar(&self, id: ScalarId) -> (scalar: &SchemaScalar)
        requires
            id.0 < self.scalars@.len(),
        ensures
            *scalar == self.scalars@[id.0 as int],
    {
        &self.scalars[id.0]
    }
}

} // verus!
