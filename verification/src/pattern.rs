//! The schema-agnostic pattern tree: disjunctions of conjunctions, each
//! conjunction with its own variable scope.
//!
//! Scopes are allocated by a `BlockBuilderContext`, which hands out fresh
//! scope identifiers and records each child scope's parent and transparency.
//! A transparent child scope exposes its bindings to the parent scope.

use vstd::prelude::*;
use crate::variable::Variable;

verus! {

/// Identifier of a variable scope within one compilation unit.
#[derive(Clone, Copy, PartialEq, Eq, Structural, Hash, Debug)]
pub struct ScopeId {
    pub id: u16,
}

/// Whether variables bound in a child scope are visible to its parent.
#[derive(Clone, Copy, PartialEq, Eq, Structural, Debug)]
pub enum ScopeTransparency {
    Transparent,
    Opaque,
}

/// One allocated child scope: its identifier, its parent, and whether it is
/// transparent to the parent.
#[derive(Clone, Copy, PartialEq, Eq, Structural, Debug)]
pub struct ScopeRecord {
    pub scope: ScopeId,
    pub parent: ScopeId,
    pub transparency: ScopeTransparency,
}

/// Allocates scope identifiers while a block of patterns is being built.
/// Identifiers are unique within the compilation unit and never reused.
pub struct BlockBuilderContext {
    next_scope_id: u16,
    scopes: Vec<ScopeRecord>,
}

impl BlockBuilderContext {
    /// All scopes allocated so far, in allocation order.
    pub closed spec fn scopes_spec(&self) -> Seq<ScopeRecord> {
        self.scopes@
    }

    /// The next identifier that will be handed out.
    pub closed spec fn next_scope_id_spec(&self) -> u16 {
        self.next_scope_id
    }

    /// Every allocated scope identifier lies below the allocation cursor, so
    /// no identifier is ever handed out twice.
    pub open spec fn wf(&self) -> bool {
        forall|i: int|
            0 <= i < self.scopes_spec().len() ==> (#[trigger] self.scopes_spec()[i]).scope.id
                < self.next_scope_id_spec()
    }

    /// A fresh context whose root scope is already taken: allocation starts
    /// just above it.
    pub fn new(root: ScopeId) -> (r: BlockBuilderContext)
        requires
            root.id < u16::MAX,
        ensures
            r.wf(),
            r.scopes_spec().len() == 0,
            r.next_scope_id_spec() == root.id + 1,
    {
        BlockBuilderContext { next_scope_id: root.id + 1, scopes: Vec::new() }
    }

    /// Allocates a fresh child scope of `parent` and records its
    /// transparency. The returned identifier differs from every identifier
    /// handed out before.
    pub fn create_child_scope(&mut self, parent: ScopeId, transparency: ScopeTransparency) -> (r:
        ScopeId)
        requires
            old(self).wf(),
            old(self).next_scope_id_spec() < u16::MAX,
        ensures
            final(self).wf(),
            r.id == old(self).next_scope_id_spec(),
            final(self).next_scope_id_spec() == old(self).next_scope_id_spec() + 1,
            final(self).scopes_spec() == old(self).scopes_spec().push(
                ScopeRecord { scope: r, parent, transparency },
            ),
            forall|i: int|
                0 <= i < old(self).scopes_spec().len() ==> (#[trigger] old(
                    self,
                ).scopes_spec()[i]).scope != r,
    {
        let scope = ScopeId { id: self.next_scope_id };
        self.next_scope_id = self.next_scope_id + 1;
        self.scopes.push(ScopeRecord { scope, parent, transparency });
        scope
    }
}

/// One branch of a disjunction: a conjunction of constraints under its own
/// scope. The constraints themselves are kept as the sequence of variables
/// they reference, which is what the later passes consume.
#[derive(Clone, Debug)]
pub struct Conjunction {
    scope_id: ScopeId,
    variables: Vec<Variable>,
}

impl Conjunction {
    pub closed spec fn scope_id_spec(&self) -> ScopeId {
        self.scope_id
    }

    pub closed spec fn variables_spec(&self) -> Seq<Variable> {
        self.variables@
    }

    /// An empty conjunction under the given scope.
    pub fn new(scope_id: ScopeId) -> (r: Conjunction)
        ensures
            r.scope_id_spec() == scope_id,
            r.variables_spec().len() == 0,
    {
        Conjunction { scope_id, variables: Vec::new() }
    }

    pub fn scope_id(&self) -> (r: ScopeId)
        ensures
            r == self.scope_id_spec(),
    {
        self.scope_id
    }

    /// The variables referenced by this conjunction's constraints, in
    /// reference order, duplicates kept.
    pub fn referenced_variables(&self) -> (r: &Vec<Variable>)
        ensures
            r@ == self.variables_spec(),
    {
        &self.variables
    }
}

/// Builds one conjunction, then hands it back to the disjunction builder.
pub struct ConjunctionBuilder {
    conjunction: Conjunction,
}

impl ConjunctionBuilder {
    pub closed spec fn conjunction_spec(&self) -> Conjunction {
        self.conjunction
    }

    pub fn new(conjunction: Conjunction) -> (r: ConjunctionBuilder)
        ensures
            r.conjunction_spec() == conjunction,
    {
        ConjunctionBuilder { conjunction }
    }

    /// Records that a constraint of this conjunction references `variable`.
    pub fn add_variable(&mut self, variable: Variable)
        ensures
            final(self).conjunction_spec().scope_id_spec() == old(
                self,
            ).conjunction_spec().scope_id_spec(),
            final(self).conjunction_spec().variables_spec() == old(
                self,
            ).conjunction_spec().variables_spec().push(variable),
    {
        self.conjunction.variables.push(variable);
    }

    pub fn finish(self) -> (r: Conjunction)
        ensures
            r == self.conjunction_spec(),
    {
        self.conjunction
    }
}

/// An ordered sequence of alternative conjunctions.
#[derive(Clone, Debug)]
pub struct Disjunction {
    conjunctions: Vec<Conjunction>,
}

/// The variables referenced anywhere in `conjunctions`, branch by branch, in
/// order and without de-duplication.
pub open spec fn referenced_variables_of(conjunctions: Seq<Conjunction>) -> Seq<Variable>
    decreases conjunctions.len(),
{
    if conjunctions.len() == 0 {
        Seq::empty()
    } else {
        conjunctions.first().variables_spec() + referenced_variables_of(conjunctions.drop_first())
    }
}

/// Appending one conjunction appends exactly its variables.
pub proof fn lemma_referenced_variables_push(conjunctions: Seq<Conjunction>, c: Conjunction)
    ensures
        referenced_variables_of(conjunctions.push(c)) == referenced_variables_of(conjunctions)
            + c.variables_spec(),
    decreases conjunctions.len(),
{
    if conjunctions.len() == 0 {
        assert(conjunctions =~= Seq::<Conjunction>::empty());
        assert(conjunctions.push(c).drop_first() =~= Seq::<Conjunction>::empty());
        assert(conjunctions.push(c).first() == c);
        assert(referenced_variables_of(Seq::<Conjunction>::empty()) =~= Seq::<Variable>::empty());
        assert(referenced_variables_of(conjunctions.push(c)) =~= c.variables_spec()
            + Seq::<Variable>::empty());
        assert(c.variables_spec() + Seq::<Variable>::empty() =~= c.variables_spec());
        assert(Seq::<Variable>::empty() + c.variables_spec() =~= c.variables_spec());
    } else {
        assert(conjunctions.push(c).drop_first() =~= conjunctions.drop_first().push(c));
        lemma_referenced_variables_push(conjunctions.drop_first(), c);
        assert(referenced_variables_of(conjunctions.push(c)) =~= referenced_variables_of(
            conjunctions,
        ) + c.variables_spec());
    }
}

impl Disjunction {
    pub closed spec fn conjunctions_spec(&self) -> Seq<Conjunction> {
        self.conjunctions@
    }

    /// A disjunction with no branches.
    pub fn new() -> (r: Disjunction)
        ensures
            r.conjunctions_spec().len() == 0,
    {
        Disjunction { conjunctions: Vec::new() }
    }

    /// The branches, in order.
    pub fn conjunctions(&self) -> (r: &Vec<Conjunction>)
        ensures
            r@ == self.conjunctions_spec(),
    {
        &self.conjunctions
    }

    /// The variables referenced in any branch, in branch order. Duplicates
    /// are kept: a caller that needs a set must collect one.
    pub fn referenced_variables(&self) -> (r: Vec<Variable>)
        ensures
            r@ == referenced_variables_of(self.conjunctions_spec()),
    {
        let mut result: Vec<Variable> = Vec::new();
        let mut i: usize = 0;
        while i < self.conjunctions.len()
            invariant
                i <= self.conjunctions.len(),
                result@ == referenced_variables_of(self.conjunctions@.take(i as int)),
            decreases self.conjunctions.len() - i,
        {
            let conjunction = &self.conjunctions[i];
            let mut j: usize = 0;
            while j < conjunction.variables.len()
                invariant
                    j <= conjunction.variables.len(),
                    conjunction == self.conjunctions@[i as int],
                    i < self.conjunctions.len(),
                    result@ == referenced_variables_of(self.conjunctions@.take(i as int))
                        + conjunction.variables@.take(j as int),
                decreases conjunction.variables.len() - j,
            {
                result.push(conjunction.variables[j]);
                proof {
                    assert(conjunction.variables@.take(j + 1) =~= conjunction.variables@.take(
                        j as int,
                    ).push(conjunction.variables@[j as int]));
                }
                j = j + 1;
            }
            proof {
                assert(conjunction.variables@.take(conjunction.variables@.len() as int)
                    =~= conjunction.variables@);
                assert(self.conjunctions@.take(i + 1) =~= self.conjunctions@.take(i as int).push(
                    self.conjunctions@[i as int],
                ));
                lemma_referenced_variables_push(
                    self.conjunctions@.take(i as int),
                    self.conjunctions@[i as int],
                );
            }
            i = i + 1;
        }
        proof {
            assert(self.conjunctions@.take(self.conjunctions@.len() as int)
                =~= self.conjunctions@);
        }
        result
    }
}

/// Builds a disjunction branch by branch. Each branch gets a fresh,
/// transparent child scope of the disjunction's own scope.
pub struct DisjunctionBuilder {
    scope_id: ScopeId,
    disjunction: Disjunction,
}

impl DisjunctionBuilder {
    pub closed spec fn scope_id_spec(&self) -> ScopeId {
        self.scope_id
    }

    pub closed spec fn disjunction_spec(&self) -> Disjunction {
        self.disjunction
    }

    /// Starts extending `disjunction`, whose branches will live under child
    /// scopes of `scope_id`.
    pub fn new(scope_id: ScopeId, disjunction: Disjunction) -> (r: DisjunctionBuilder)
        ensures
            r.scope_id_spec() == scope_id,
            r.disjunction_spec() == disjunction,
    {
        DisjunctionBuilder { scope_id, disjunction }
    }

    /// Allocates a fresh transparent child scope and returns a builder for
    /// the new branch; hand the built conjunction to `finish_conjunction`.
    pub fn add_conjunction(&mut self, context: &mut BlockBuilderContext) -> (r: ConjunctionBuilder)
        requires
            old(context).wf(),
            old(context).next_scope_id_spec() < u16::MAX,
        ensures
            final(context).wf(),
            *final(self) == *old(self),
            r.conjunction_spec().variables_spec().len() == 0,
            r.conjunction_spec().scope_id_spec().id == old(context).next_scope_id_spec(),
            final(context).scopes_spec() == old(context).scopes_spec().push(
                ScopeRecord {
                    scope: r.conjunction_spec().scope_id_spec(),
                    parent: old(self).scope_id_spec(),
                    transparency: ScopeTransparency::Transparent,
                },
            ),
    {
        let conj_scope_id = context.create_child_scope(
            self.scope_id,
            ScopeTransparency::Transparent,
        );
        ConjunctionBuilder::new(Conjunction::new(conj_scope_id))
    }

    /// Appends a finished branch to the disjunction.
    pub fn finish_conjunction(&mut self, builder: ConjunctionBuilder)
        ensures
            final(self).scope_id_spec() == old(self).scope_id_spec(),
            final(self).disjunction_spec().conjunctions_spec() == old(
                self,
            ).disjunction_spec().conjunctions_spec().push(builder.conjunction_spec()),
    {
        let conjunction = builder.finish();
        self.disjunction.conjunctions.push(conjunction);
    }

    /// The extended disjunction.
    pub fn into_disjunction(self) -> (r: Disjunction)
        ensures
            r == self.disjunction_spec(),
    {
        self.disjunction
    }
}

} // verus!
