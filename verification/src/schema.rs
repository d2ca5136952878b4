//! Schema metadata at the interface the query core consumes: concrete types,
//! labels, ownership declarations and their cardinality constraints, and the
//! type manager that resolves them against a snapshot.

use vstd::prelude::*;
use crate::storage::Snapshot;

verus! {

/// A concrete attribute type of the schema.
#[derive(Clone, Copy, PartialEq, Eq, Structural, Hash, Debug)]
pub struct AttributeType {
    pub id: u64,
}

/// A concrete object type: only object types can own attributes.
#[derive(Clone, Copy, PartialEq, Eq, Structural, Hash, Debug)]
pub enum ObjectType {
    Entity(u64),
    Relation(u64),
}

/// Any concrete schema type a variable may resolve to.
#[derive(Clone, Copy, PartialEq, Eq, Structural, Hash, Debug)]
pub enum Type {
    Entity(u64),
    Relation(u64),
    Attribute(u64),
}

impl Type {
    /// Whether this type is an object type (an entity or relation type).
    pub open spec fn is_object(self) -> bool {
        self is Entity || self is Relation
    }

    pub open spec fn as_object_type_spec(self) -> ObjectType
        recommends
            self.is_object(),
    {
        match self {
            Type::Entity(id) => ObjectType::Entity(id),
            Type::Relation(id) => ObjectType::Relation(id),
            Type::Attribute(id) => ObjectType::Entity(id),
        }
    }

    /// Views this type as an object type. Attribute types have no object
    /// form, so the caller must know the type is an object type.
    pub fn as_object_type(self) -> (r: ObjectType)
        requires
            self.is_object(),
        ensures
            r == self.as_object_type_spec(),
    {
        match self {
            Type::Entity(id) => ObjectType::Entity(id),
            Type::Relation(id) => ObjectType::Relation(id),
            Type::Attribute(_) => {
                proof {
                    assert(false);
                }
                ObjectType::Entity(0)
            },
        }
    }

    /// The label of this type in the snapshot's schema, for diagnostics.
    pub fn get_label<'a>(self, snapshot: &'a Snapshot, _type_manager: &TypeManager) -> (r: Option<
        &'a String,
    >)
        ensures
            r is Some <==> Snapshot::label_of(snapshot.type_labels@, self) is Some,
            r matches Some(name) ==> Snapshot::label_of(snapshot.type_labels@, self) == Some(
                name@,
            ),
    {
        snapshot.lookup_label(self)
    }
}

/// A human-readable schema label, as written in a query.
#[derive(Clone, Debug)]
pub struct Label {
    pub name: String,
}

impl View for Label {
    type V = Seq<char>;

    open spec fn view(&self) -> Seq<char> {
        self.name@
    }
}

impl Label {
    pub fn build(name: String) -> (r: Label)
        ensures
            r@ == name@,
    {
        Label { name }
    }
}

/// A schema-declared cardinality constraint on an ownership: how many values
/// the ownership admits. `end` is `None` for an unbounded constraint.
#[derive(Clone, Copy, Debug)]
pub struct AnnotationCardinality {
    pub start: u64,
    pub end: Option<u64>,
}

impl AnnotationCardinality {
    /// The optional upper bound of this constraint.
    pub fn end(&self) -> (r: Option<u64>)
        ensures
            r == self.end,
    {
        self.end
    }
}

/// One ownership declaration of the schema: `owner` owns `attribute`, under
/// the given cardinality constraints.
#[derive(Debug)]
pub struct OwnsDeclaration {
    pub owner: ObjectType,
    pub attribute: AttributeType,
    pub cardinalities: Vec<AnnotationCardinality>,
}

impl OwnsDeclaration {
    /// The cardinality constraints declared on this ownership. Read-only and
    /// side-effect-free against the given snapshot.
    pub fn get_cardinality_constraints<'a>(
        &'a self,
        _snapshot: &Snapshot,
        _type_manager: &TypeManager,
    ) -> (r: Result<&'a Vec<AnnotationCardinality>, ConceptReadError>)
        ensures
            r matches Ok(cards) && cards@ == self.cardinalities@,
    {
        Ok(&self.cardinalities)
    }
}

/// A transient failure while reading schema metadata. The in-memory snapshot
/// model never raises one; the variant is part of the read interface that
/// callers must thread through.
#[derive(Clone, Copy, Debug)]
pub enum ConceptReadError {
    TransientRead,
}

/// Resolves schema metadata against a snapshot. The manager itself is
/// stateless: all metadata lives in the snapshot.
pub struct TypeManager {}

impl TypeManager {
    pub fn new() -> (r: TypeManager) {
        TypeManager {  }
    }

    /// Resolves a label to the attribute type it names, or `None` when the
    /// schema declares no such attribute type.
    pub fn get_attribute_type(&self, snapshot: &Snapshot, label: &Label) -> (r: Result<
        Option<AttributeType>,
        ConceptReadError,
    >)
        ensures
            r matches Ok(o) && o == Snapshot::attribute_type_named(
                snapshot.attribute_types@,
                label@,
            ),
    {
        Ok(snapshot.lookup_attribute_type(label))
    }
}

impl ObjectType {
    /// The ownership declaration of `attribute_type` by this object type, or
    /// `None` when this type does not own it.
    pub fn get_owns_attribute<'a>(
        &self,
        snapshot: &'a Snapshot,
        _type_manager: &TypeManager,
        attribute_type: AttributeType,
    ) -> (r: Result<Option<&'a OwnsDeclaration>, ConceptReadError>)
        ensures
            r matches Ok(o) && (o is Some <==> Snapshot::owns_of(
                snapshot.owns_declarations@,
                *self,
                attribute_type,
            ) is Some) && (o matches Some(d) ==> Snapshot::owns_of(
                snapshot.owns_declarations@,
                *self,
                attribute_type,
            ) == Some(*d)),
    {
        Ok(snapshot.lookup_owns(*self, attribute_type))
    }
}

} // verus!
