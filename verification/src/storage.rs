//! An in-memory model of a transactionally isolated snapshot: the schema
//! tables the annotation pass reads, and the thing graph (vertices plus
//! has-attribute and role-player edges) that write stages mutate.
//!
//! A snapshot value is a point-in-time view; reads are side-effect-free and
//! a write stage mutates the snapshot it exclusively owns.

use vstd::prelude::*;
use crate::schema::{AttributeType, ObjectType, OwnsDeclaration, Type, Label};

verus! {

/// A has-attribute edge: `owner` has the attribute instance `attribute`.
#[derive(Clone, Copy, PartialEq, Eq, Structural, Debug)]
pub struct HasEdge {
    pub owner: u64,
    pub attribute: u64,
}

/// A role-player edge: `player` plays a role in the relation `relation`.
#[derive(Clone, Copy, PartialEq, Eq, Structural, Debug)]
pub struct Link {
    pub relation: u64,
    pub player: u64,
}

/// A readable (and, for write stages, writable) snapshot of the store.
pub struct Snapshot {
    /// Schema: label of each declared attribute type.
    pub attribute_types: Vec<(String, AttributeType)>,
    /// Schema: the ownership declarations, with their cardinalities.
    pub owns_declarations: Vec<OwnsDeclaration>,
    /// Schema: human-readable label of each type, for diagnostics.
    pub type_labels: Vec<(Type, String)>,
    /// Data: the thing vertices present.
    pub things: Vec<u64>,
    /// Data: the has-attribute edges present.
    pub has_edges: Vec<HasEdge>,
    /// Data: the role-player edges present.
    pub links: Vec<Link>,
}

impl Snapshot {
    /// The attribute type the schema declares under `name`, if any: the
    /// first table entry whose label reads `name`.
    pub open spec fn attribute_type_named(
        entries: Seq<(String, AttributeType)>,
        name: Seq<char>,
    ) -> Option<AttributeType>
        decreases entries.len(),
    {
        if entries.len() == 0 {
            None
        } else if entries.first().0@ == name {
            Some(entries.first().1)
        } else {
            Self::attribute_type_named(entries.drop_first(), name)
        }
    }

    /// The ownership declaration of `attribute` by `owner`, if any.
    pub open spec fn owns_of(
        decls: Seq<OwnsDeclaration>,
        owner: ObjectType,
        attribute: AttributeType,
    ) -> Option<OwnsDeclaration>
        decreases decls.len(),
    {
        if decls.len() == 0 {
            None
        } else if decls.first().owner == owner && decls.first().attribute == attribute {
            Some(decls.first())
        } else {
            Self::owns_of(decls.drop_first(), owner, attribute)
        }
    }

    /// The label the schema records for `t`, if any.
    pub open spec fn label_of(labels: Seq<(Type, String)>, t: Type) -> Option<Seq<char>>
        decreases labels.len(),
    {
        if labels.len() == 0 {
            None
        } else if labels.first().0 == t {
            Some(labels.first().1@)
        } else {
            Self::label_of(labels.drop_first(), t)
        }
    }

    /// A snapshot with an empty schema and no data.
    pub fn empty() -> (r: Snapshot)
        ensures
            r.attribute_types@.len() == 0,
            r.owns_declarations@.len() == 0,
            r.type_labels@.len() == 0,
            r.things@.len() == 0,
            r.has_edges@.len() == 0,
            r.links@.len() == 0,
    {
        Snapshot {
            attribute_types: Vec::new(),
            owns_declarations: Vec::new(),
            type_labels: Vec::new(),
            things: Vec::new(),
            has_edges: Vec::new(),
            links: Vec::new(),
        }
    }

    pub fn lookup_attribute_type(&self, label: &Label) -> (r: Option<AttributeType>)
        ensures
            r == Self::attribute_type_named(self.attribute_types@, label@),
    {
        let n = self.attribute_types.len();
        let mut i: usize = 0;
        proof {
            assert(self.attribute_types@.skip(0) =~= self.attribute_types@);
        }
        while i < n
            invariant
                i <= n,
                n == self.attribute_types@.len(),
                Self::attribute_type_named(self.attribute_types@, label@)
                    == Self::attribute_type_named(self.attribute_types@.skip(i as int), label@),
            decreases n - i,
        {
            proof {
                assert(self.attribute_types@.skip(i as int).first() == self.attribute_types@[i as int]);
                assert(self.attribute_types@.skip(i as int).drop_first() =~= self.attribute_types@.skip(
                    i + 1,
                ));
            }
            let entry = &self.attribute_types[i];
            if entry.0 == label.name {
                return Some(entry.1);
            }
            i = i + 1;
        }
        proof {
            assert(self.attribute_types@.skip(n as int) =~= Seq::<(String, AttributeType)>::empty());
        }
        None
    }

    pub fn lookup_owns(&self, owner: ObjectType, attribute: AttributeType) -> (r: Option<
        &OwnsDeclaration,
    >)
        ensures
            r is Some <==> Self::owns_of(self.owns_declarations@, owner, attribute) is Some,
            r matches Some(d) ==> Self::owns_of(self.owns_declarations@, owner, attribute)
                matches Some(s) && s == *d,
    {
        let n = self.owns_declarations.len();
        let mut i: usize = 0;
        proof {
            assert(self.owns_declarations@.skip(0) =~= self.owns_declarations@);
        }
        while i < n
            invariant
                i <= n,
                n == self.owns_declarations@.len(),
                Self::owns_of(self.owns_declarations@, owner, attribute) == Self::owns_of(
                    self.owns_declarations@.skip(i as int),
                    owner,
                    attribute,
                ),
            decreases n - i,
        {
            proof {
                assert(self.owns_declarations@.skip(i as int).first()
                    == self.owns_declarations@[i as int]);
                assert(self.owns_declarations@.skip(i as int).drop_first()
                    =~= self.owns_declarations@.skip(i + 1));
            }
            let decl = &self.owns_declarations[i];
            if decl.owner == owner && decl.attribute == attribute {
                return Some(decl);
            }
            i = i + 1;
        }
        proof {
            assert(self.owns_declarations@.skip(n as int) =~= Seq::<OwnsDeclaration>::empty());
        }
        None
    }

    pub fn lookup_label(&self, t: Type) -> (r: Option<&String>)
        ensures
            r is Some <==> Self::label_of(self.type_labels@, t) is Some,
            r matches Some(name) ==> Self::label_of(self.type_labels@, t) == Some(name@),
    {
        let n = self.type_labels.len();
        let mut i: usize = 0;
        proof {
            assert(self.type_labels@.skip(0) =~= self.type_labels@);
        }
        while i < n
            invariant
                i <= n,
                n == self.type_labels@.len(),
                Self::label_of(self.type_labels@, t) == Self::label_of(
                    self.type_labels@.skip(i as int),
                    t,
                ),
            decreases n - i,
        {
            proof {
                assert(self.type_labels@.skip(i as int).first() == self.type_labels@[i as int]);
                assert(self.type_labels@.skip(i as int).drop_first() =~= self.type_labels@.skip(
                    i + 1,
                ));
            }
            let entry = &self.type_labels[i];
            if entry.0 == t {
                return Some(&entry.1);
            }
            i = i + 1;
        }
        proof {
            assert(self.type_labels@.skip(n as int) =~= Seq::<(Type, String)>::empty());
        }
        None
    }
}

/// The has-edges that remain once every edge equal to `(owner, attribute)`
/// is severed.
pub open spec fn remove_has(edges: Seq<HasEdge>, owner: u64, attribute: u64) -> Seq<HasEdge>
    decreases edges.len(),
{
    if edges.len() == 0 {
        Seq::empty()
    } else {
        let rest = remove_has(edges.drop_first(), owner, attribute);
        if edges.first().owner == owner && edges.first().attribute == attribute {
            rest
        } else {
            seq![edges.first()] + rest
        }
    }
}

/// The role-player edges that remain once every edge equal to
/// `(relation, player)` is severed.
pub open spec fn remove_link(links: Seq<Link>, relation: u64, player: u64) -> Seq<Link>
    decreases links.len(),
{
    if links.len() == 0 {
        Seq::empty()
    } else {
        let rest = remove_link(links.drop_first(), relation, player);
        if links.first().relation == relation && links.first().player == player {
            rest
        } else {
            seq![links.first()] + rest
        }
    }
}

/// The things that remain once `thing` is deleted.
pub open spec fn remove_thing(things: Seq<u64>, thing: u64) -> Seq<u64>
    decreases things.len(),
{
    if things.len() == 0 {
        Seq::empty()
    } else {
        let rest = remove_thing(things.drop_first(), thing);
        if things.first() == thing {
            rest
        } else {
            seq![things.first()] + rest
        }
    }
}

/// Whether some edge still references `thing`, either as owner, attribute,
/// relation or player. A thing with an incident edge must not be deleted.
pub open spec fn has_incident_edge(edges: Seq<HasEdge>, links: Seq<Link>, thing: u64) -> bool {
    (exists|i: int|
        0 <= i < edges.len() && ((#[trigger] edges[i]).owner == thing || edges[i].attribute
            == thing)) || (exists|i: int|
        0 <= i < links.len() && ((#[trigger] links[i]).relation == thing || links[i].player
            == thing))
}

impl Snapshot {
    /// Severs every has-edge equal to `(owner, attribute)`. Severing an edge
    /// that is not present changes nothing.
    pub fn delete_has_edge(&mut self, owner: u64, attribute: u64)
        ensures
            final(self).has_edges@ == remove_has(old(self).has_edges@, owner, attribute),
            final(self).things@ == old(self).things@,
            final(self).links@ == old(self).links@,
            final(self).attribute_types@ == old(self).attribute_types@,
            final(self).owns_declarations@ == old(self).owns_declarations@,
            final(self).type_labels@ == old(self).type_labels@,
    {
        let n = self.has_edges.len();
        let mut kept: Vec<HasEdge> = Vec::new();
        let mut i: usize = 0;
        proof {
            assert(self.has_edges@.skip(0) =~= self.has_edges@);
            assert(kept@ + remove_has(self.has_edges@, owner, attribute) =~= remove_has(
                self.has_edges@,
                owner,
                attribute,
            ));
        }
        while i < n
            invariant
                i <= n,
                n == self.has_edges@.len(),
                remove_has(self.has_edges@, owner, attribute) == kept@ + remove_has(
                    self.has_edges@.skip(i as int),
                    owner,
                    attribute,
                ),
            decreases n - i,
        {
            proof {
                assert(self.has_edges@.skip(i as int).first() == self.has_edges@[i as int]);
                assert(self.has_edges@.skip(i as int).drop_first() =~= self.has_edges@.skip(i + 1));
            }
            let edge = self.has_edges[i];
            if !(edge.owner == owner && edge.attribute == attribute) {
                kept.push(edge);
                proof {
                    assert(kept@.drop_last() + (seq![edge] + remove_has(
                        self.has_edges@.skip(i + 1),
                        owner,
                        attribute,
                    )) =~= kept@ + remove_has(self.has_edges@.skip(i + 1), owner, attribute));
                }
            }
            i = i + 1;
        }
        proof {
            assert(self.has_edges@.skip(n as int) =~= Seq::<HasEdge>::empty());
            assert(kept@ + Seq::<HasEdge>::empty() =~= kept@);
        }
        self.has_edges = kept;
    }

    /// Severs every role-player edge equal to `(relation, player)`.
    pub fn delete_link(&mut self, relation: u64, player: u64)
        ensures
            final(self).links@ == remove_link(old(self).links@, relation, player),
            final(self).things@ == old(self).things@,
            final(self).has_edges@ == old(self).has_edges@,
            final(self).attribute_types@ == old(self).attribute_types@,
            final(self).owns_declarations@ == old(self).owns_declarations@,
            final(self).type_labels@ == old(self).type_labels@,
    {
        let n = self.links.len();
        let mut kept: Vec<Link> = Vec::new();
        let mut i: usize = 0;
        proof {
            assert(self.links@.skip(0) =~= self.links@);
            assert(kept@ + remove_link(self.links@, relation, player) =~= remove_link(
                self.links@,
                relation,
                player,
            ));
        }
        while i < n
            invariant
                i <= n,
                n == self.links@.len(),
                remove_link(self.links@, relation, player) == kept@ + remove_link(
                    self.links@.skip(i as int),
                    relation,
                    player,
                ),
            decreases n - i,
        {
            proof {
                assert(self.links@.skip(i as int).first() == self.links@[i as int]);
                assert(self.links@.skip(i as int).drop_first() =~= self.links@.skip(i + 1));
            }
            let link = self.links[i];
            if !(link.relation == relation && link.player == player) {
                kept.push(link);
                proof {
                    assert(kept@.drop_last() + (seq![link] + remove_link(
                        self.links@.skip(i + 1),
                        relation,
                        player,
                    )) =~= kept@ + remove_link(self.links@.skip(i + 1), relation, player));
                }
            }
            i = i + 1;
        }
        proof {
            assert(self.links@.skip(n as int) =~= Seq::<Link>::empty());
            assert(kept@ + Seq::<Link>::empty() =~= kept@);
        }
        self.links = kept;
    }

    /// Deletes the thing vertex `thing`. Deleting an absent thing changes
    /// nothing: deletion is idempotent by construction.
    pub fn delete_thing(&mut self, thing: u64)
        ensures
            final(self).things@ == remove_thing(old(self).things@, thing),
            final(self).has_edges@ == old(self).has_edges@,
            final(self).links@ == old(self).links@,
            final(self).attribute_types@ == old(self).attribute_types@,
            final(self).owns_declarations@ == old(self).owns_declarations@,
            final(self).type_labels@ == old(self).type_labels@,
    {
        let n = self.things.len();
        let mut kept: Vec<u64> = Vec::new();
        let mut i: usize = 0;
        proof {
            assert(self.things@.skip(0) =~= self.things@);
            assert(kept@ + remove_thing(self.things@, thing) =~= remove_thing(self.things@, thing));
        }
        while i < n
            invariant
                i <= n,
                n == self.things@.len(),
                remove_thing(self.things@, thing) == kept@ + remove_thing(
                    self.things@.skip(i as int),
                    thing,
                ),
            decreases n - i,
        {
            proof {
                assert(self.things@.skip(i as int).first() == self.things@[i as int]);
                assert(self.things@.skip(i as int).drop_first() =~= self.things@.skip(i + 1));
            }
            let t = self.things[i];
            if !(t == thing) {
                kept.push(t);
                proof {
                    assert(kept@.drop_last() + (seq![t] + remove_thing(
                        self.things@.skip(i + 1),
                        thing,
                    )) =~= kept@ + remove_thing(self.things@.skip(i + 1), thing));
                }
            }
            i = i + 1;
        }
        proof {
            assert(self.things@.skip(n as int) =~= Seq::<u64>::empty());
            assert(kept@ + Seq::<u64>::empty() =~= kept@);
        }
        self.things = kept;
    }

    /// Whether any edge still references `thing`.
    pub fn has_incident_edges(&self, thing: u64) -> (r: bool)
        ensures
            r == has_incident_edge(self.has_edges@, self.links@, thing),
    {
        let n = self.has_edges.len();
        let mut i: usize = 0;
        while i < n
            invariant
                i <= n,
                n == self.has_edges@.len(),
                forall|j: int|
                    0 <= j < i ==> !((#[trigger] self.has_edges@[j]).owner == thing
                        || self.has_edges@[j].attribute == thing),
            decreases n - i,
        {
            let edge = self.has_edges[i];
            if edge.owner == thing || edge.attribute == thing {
                return true;
            }
            i = i + 1;
        }
        let m = self.links.len();
        let mut k: usize = 0;
        while k < m
            invariant
                k <= m,
                m == self.links@.len(),
                forall|j: int|
                    0 <= j < self.has_edges@.len() ==> !((#[trigger] self.has_edges@[j]).owner
                        == thing || self.has_edges@[j].attribute == thing),
                forall|j: int|
                    0 <= j < k ==> !((#[trigger] self.links@[j]).relation == thing
                        || self.links@[j].player == thing),
            decreases m - k,
        {
            let link = self.links[k];
            if link.relation == thing || link.player == thing {
                return true;
            }
            k = k + 1;
        }
        false
    }
}

} // verus!
