//! The staged execution pipeline: rows and batches, the delete stage's
//! instruction interpreter, cooperative interruption, and the pull-based
//! stage chain.
//!
//! A write stage materialises its predecessor's rows eagerly, takes
//! exclusive ownership of the snapshot inside the execution context, and
//! executes the compiled instructions row by row: for each row, every
//! connection instruction (edge severance) strictly before every concept
//! instruction (vertex deletion). Cancellation is cooperative: the
//! interrupt token is polled once every hundred rows.

use std::sync::Arc;

use vstd::prelude::*;
use crate::fetch::ParameterRegistry;
use crate::storage::{
    has_incident_edge, remove_has, remove_link, remove_thing, HasEdge, Link, Snapshot,
};

verus! {

/// A row of resolved thing identifiers, with its multiplicity: how many
/// duplicate copies of the row the predecessor produced.
pub struct Row {
    pub values: Vec<u64>,
    pub multiplicity: u64,
}

/// An ordered, owned collection of rows materialised in memory by a write
/// stage. The stage owns it exclusively until it hands it onward.
pub struct Batch {
    pub rows: Vec<Row>,
}

impl Batch {
    /// The row contents, in order.
    pub open spec fn rows_view(&self) -> Seq<Seq<u64>> {
        self.rows@.map_values(|r: Row| r.values@)
    }
}

/// The data content of a snapshot: what delete instructions read and
/// mutate. Schema tables are not part of it; writes never touch them.
pub ghost struct StoreView {
    pub things: Seq<u64>,
    pub has_edges: Seq<HasEdge>,
    pub links: Seq<Link>,
}

/// The data content of `s`.
pub open spec fn store_view(s: Snapshot) -> StoreView {
    StoreView { things: s.things@, has_edges: s.has_edges@, links: s.links@ }
}

/// Severs the has-edge between the things at two row positions.
#[derive(Clone, Copy, PartialEq, Eq, Structural, Debug)]
pub struct HasInstruction {
    pub owner: usize,
    pub attribute: usize,
}

/// Severs the role-player edge between the things at two row positions.
#[derive(Clone, Copy, PartialEq, Eq, Structural, Debug)]
pub struct RolePlayerInstruction {
    pub relation: usize,
    pub player: usize,
}

/// An edge-severing instruction. Connection instructions execute before
/// any concept instruction, else the store would reject a dangling
/// reference.
#[derive(Clone, Copy, PartialEq, Eq, Structural, Debug)]
pub enum ConnectionInstruction {
    Has(HasInstruction),
    RolePlayer(RolePlayerInstruction),
}

/// A vertex-level instruction: deletes the thing at a row position.
#[derive(Clone, Copy, PartialEq, Eq, Structural, Debug)]
pub enum ConceptInstruction {
    DeleteThing { thing: usize },
}

/// The compiled, immutable plan of a delete stage: edge severances first,
/// vertex deletions second.
pub struct DeleteExecutable {
    pub connection_instructions: Vec<ConnectionInstruction>,
    pub concept_instructions: Vec<ConceptInstruction>,
}

/// An instruction-level failure during a write stage.
#[derive(Clone, Copy, PartialEq, Eq, Structural, Debug)]
pub enum WriteError {
    /// An instruction addressed a position beyond the row's width.
    RowPositionOutOfRange { position: usize },
    /// A concept still connected by an edge was asked to be deleted.
    DeleteConnectedConcept { thing: u64 },
}

// ---------------------------------------------------------------------
// The delete interpreter, as a mathematical function
// ---------------------------------------------------------------------

/// The effect of one connection instruction on the store, or its failure.
/// Severing an absent edge is a no-op.
pub open spec fn apply_connection_spec(
    instr: ConnectionInstruction,
    row: Seq<u64>,
    store: StoreView,
) -> Result<StoreView, WriteError> {
    match instr {
        ConnectionInstruction::Has(h) => if h.owner >= row.len() {
            Err(WriteError::RowPositionOutOfRange { position: h.owner })
        } else if h.attribute >= row.len() {
            Err(WriteError::RowPositionOutOfRange { position: h.attribute })
        } else {
            Ok(
                StoreView {
                    things: store.things,
                    has_edges: remove_has(
                        store.has_edges,
                        row[h.owner as int],
                        row[h.attribute as int],
                    ),
                    links: store.links,
                },
            )
        },
        ConnectionInstruction::RolePlayer(rp) => if rp.relation >= row.len() {
            Err(WriteError::RowPositionOutOfRange { position: rp.relation })
        } else if rp.player >= row.len() {
            Err(WriteError::RowPositionOutOfRange { position: rp.player })
        } else {
            Ok(
                StoreView {
                    things: store.things,
                    has_edges: store.has_edges,
                    links: remove_link(
                        store.links,
                        row[rp.relation as int],
                        row[rp.player as int],
                    ),
                },
            )
        },
    }
}

/// The effect of a connection instruction list, left to right,
/// short-circuiting on the first failure.
pub open spec fn apply_connections_spec(
    instrs: Seq<ConnectionInstruction>,
    row: Seq<u64>,
    store: StoreView,
) -> Result<StoreView, WriteError>
    decreases instrs.len(),
{
    if instrs.len() == 0 {
        Ok(store)
    } else {
        match apply_connection_spec(instrs[0], row, store) {
            Ok(next) => apply_connections_spec(instrs.drop_first(), row, next),
            Err(e) => Err(e),
        }
    }
}

/// The effect of one concept instruction: the thing is deleted, provided no
/// edge still references it. Deleting an absent thing is a no-op, so
/// deletion is idempotent.
pub open spec fn apply_concept_spec(
    instr: ConceptInstruction,
    row: Seq<u64>,
    store: StoreView,
) -> Result<StoreView, WriteError> {
    match instr {
        ConceptInstruction::DeleteThing { thing } => if thing >= row.len() {
            Err(WriteError::RowPositionOutOfRange { position: thing })
        } else {
            let t = row[thing as int];
            if has_incident_edge(store.has_edges, store.links, t) {
                Err(WriteError::DeleteConnectedConcept { thing: t })
            } else {
                Ok(
                    StoreView {
                        things: remove_thing(store.things, t),
                        has_edges: store.has_edges,
                        links: store.links,
                    },
                )
            }
        },
    }
}

/// The effect of a concept instruction list, left to right.
pub open spec fn apply_concepts_spec(
    instrs: Seq<ConceptInstruction>,
    row: Seq<u64>,
    store: StoreView,
) -> Result<StoreView, WriteError>
    decreases instrs.len(),
{
    if instrs.len() == 0 {
        Ok(store)
    } else {
        match apply_concept_spec(instrs[0], row, store) {
            Ok(next) => apply_concepts_spec(instrs.drop_first(), row, next),
            Err(e) => Err(e),
        }
    }
}

/// The effect of a whole delete plan on one row: every connection
/// instruction strictly before every concept instruction.
pub open spec fn run_delete_spec(
    executable: DeleteExecutable,
    row: Seq<u64>,
    store: StoreView,
) -> Result<StoreView, WriteError> {
    match apply_connections_spec(executable.connection_instructions@, row, store) {
        Ok(mid) => apply_concepts_spec(executable.concept_instructions@, row, mid),
        Err(e) => Err(e),
    }
}

/// The store actually reached by running the plan on one row: on failure,
/// the instructions before the failing one have still been applied.
pub open spec fn apply_connections_partial_spec(
    instrs: Seq<ConnectionInstruction>,
    row: Seq<u64>,
    store: StoreView,
) -> StoreView
    decreases instrs.len(),
{
    if instrs.len() == 0 {
        store
    } else {
        match apply_connection_spec(instrs[0], row, store) {
            Ok(next) => apply_connections_partial_spec(instrs.drop_first(), row, next),
            Err(_) => store,
        }
    }
}

pub open spec fn apply_concepts_partial_spec(
    instrs: Seq<ConceptInstruction>,
    row: Seq<u64>,
    store: StoreView,
) -> StoreView
    decreases instrs.len(),
{
    if instrs.len() == 0 {
        store
    } else {
        match apply_concept_spec(instrs[0], row, store) {
            Ok(next) => apply_concepts_partial_spec(instrs.drop_first(), row, next),
            Err(_) => store,
        }
    }
}

pub open spec fn run_delete_partial_spec(
    executable: DeleteExecutable,
    row: Seq<u64>,
    store: StoreView,
) -> StoreView {
    match apply_connections_spec(executable.connection_instructions@, row, store) {
        Ok(mid) => apply_concepts_partial_spec(executable.concept_instructions@, row, mid),
        Err(_) => apply_connections_partial_spec(executable.connection_instructions@, row, store),
    }
}

/// The effect of a delete plan on a batch of rows, in row order,
/// short-circuiting on the first failure.
pub open spec fn run_batch_spec(
    executable: DeleteExecutable,
    rows: Seq<Seq<u64>>,
    store: StoreView,
) -> Result<StoreView, WriteError>
    decreases rows.len(),
{
    if rows.len() == 0 {
        Ok(store)
    } else {
        match run_delete_spec(executable, rows[0], store) {
            Ok(next) => run_batch_spec(executable, rows.drop_first(), next),
            Err(e) => Err(e),
        }
    }
}

// ---------------------------------------------------------------------
// Cooperative interruption
// ---------------------------------------------------------------------

/// The reason a cooperative interrupt was signalled.
#[derive(Clone, Copy, PartialEq, Eq, Structural, Debug)]
pub enum InterruptType {
    Signal,
}

/// A cooperative cancellation token. It models the arrival of an external
/// signal deterministically: the token reports the signal from its
/// `signal_at_check`-th poll onward. A token is polled, never preempted:
/// in-flight row mutations are not interrupted.
pub struct ExecutionInterrupt {
    signal_at_check: Option<u64>,
    checks_made: u64,
}

impl ExecutionInterrupt {
    /// The poll number (counting from one) from which the signal shows.
    pub closed spec fn signal_at_spec(&self) -> Option<u64> {
        self.signal_at_check
    }

    /// How many polls have been made.
    pub closed spec fn checks_made_spec(&self) -> u64 {
        self.checks_made
    }

    /// A token that will never be signalled.
    pub fn new_unsignalled() -> (r: ExecutionInterrupt)
        ensures
            r.signal_at_spec() is None,
            r.checks_made_spec() == 0,
    {
        ExecutionInterrupt { signal_at_check: None, checks_made: 0 }
    }

    /// A token whose signal arrives while the `n`-th poll is awaited: the
    /// `n`-th and every later poll observe it.
    pub fn new_signalled_at_check(n: u64) -> (r: ExecutionInterrupt)
        ensures
            r.signal_at_spec() == Some(n),
            r.checks_made_spec() == 0,
    {
        ExecutionInterrupt { signal_at_check: Some(n), checks_made: 0 }
    }

    /// Polls the token: reports the interrupt when the signal has arrived.
    /// The poll counter saturates at its width; the signal, once shown,
    /// shows at every later poll.
    pub fn check(&mut self) -> (r: Option<InterruptType>)
        ensures
            final(self).signal_at_spec() == old(self).signal_at_spec(),
            old(self).checks_made_spec() < u64::MAX ==> final(self).checks_made_spec() == old(
                self,
            ).checks_made_spec() + 1,
            old(self).checks_made_spec() == u64::MAX ==> final(self).checks_made_spec()
                == u64::MAX,
            r is Some <==> (old(self).signal_at_spec() matches Some(n) && final(
                self
            ).checks_made_spec() >= n),
            r is Some ==> r == Some(InterruptType::Signal),
    {
        if self.checks_made < u64::MAX {
            self.checks_made = self.checks_made + 1;
        }
        match self.signal_at_check {
            Some(n) => {
                if self.checks_made >= n {
                    Some(InterruptType::Signal)
                } else {
                    None
                }
            },
            None => None,
        }
    }
}

// ---------------------------------------------------------------------
// The concept manager and instruction execution
// ---------------------------------------------------------------------

/// Mediates thing-level mutations against the snapshot. Stateless: the
/// data lives in the snapshot.
pub struct ThingManager {}

impl ThingManager {
    pub fn new() -> (r: ThingManager) {
        ThingManager {  }
    }

    /// Deletes the thing vertex, refusing while an edge still references
    /// it: edges must be severed before the concept they connect.
    pub fn delete_thing(&self, snapshot: &mut Snapshot, thing: u64) -> (r: Result<(), WriteError>)
        ensures
            r is Ok <==> !has_incident_edge(
                old(snapshot).has_edges@,
                old(snapshot).links@,
                thing,
            ),
            r is Ok ==> final(snapshot).things@ == remove_thing(old(snapshot).things@, thing),
            r matches Err(e) ==> e == (WriteError::DeleteConnectedConcept { thing }) && final(
                snapshot
            ).things@ == old(snapshot).things@,
            final(snapshot).has_edges@ == old(snapshot).has_edges@,
            final(snapshot).links@ == old(snapshot).links@,
            final(snapshot).attribute_types@ == old(snapshot).attribute_types@,
            final(snapshot).owns_declarations@ == old(snapshot).owns_declarations@,
            final(snapshot).type_labels@ == old(snapshot).type_labels@,
    {
        if snapshot.has_incident_edges(thing) {
            Err(WriteError::DeleteConnectedConcept { thing })
        } else {
            snapshot.delete_thing(thing);
            Ok(())
        }
    }
}

impl ConnectionInstruction {
    /// Executes this edge severance against the row: reads the positions it
    /// names and severs the edge between those things.
    pub fn execute(
        &self,
        snapshot: &mut Snapshot,
        _thing_manager: &ThingManager,
        _parameters: &ParameterRegistry,
        row: &Row,
    ) -> (r: Result<(), WriteError>)
        ensures
            r is Ok <==> apply_connection_spec(*self, row.values@, store_view(*old(snapshot)))
                is Ok,
            r is Ok ==> Ok::<StoreView, WriteError>(store_view(*final(snapshot)))
                == apply_connection_spec(*self, row.values@, store_view(*old(snapshot))),
            r matches Err(e) ==> apply_connection_spec(
                *self,
                row.values@,
                store_view(*old(snapshot)),
            ) == Err::<StoreView, WriteError>(e) && store_view(*final(snapshot)) == store_view(
                *old(snapshot),
            ),
            final(snapshot).attribute_types@ == old(snapshot).attribute_types@,
            final(snapshot).owns_declarations@ == old(snapshot).owns_declarations@,
            final(snapshot).type_labels@ == old(snapshot).type_labels@,
    {
        match self {
            ConnectionInstruction::Has(h) => {
                if h.owner >= row.values.len() {
                    return Err(WriteError::RowPositionOutOfRange { position: h.owner });
                }
                if h.attribute >= row.values.len() {
                    return Err(WriteError::RowPositionOutOfRange { position: h.attribute });
                }
                let owner = row.values[h.owner];
                let attribute = row.values[h.attribute];
                snapshot.delete_has_edge(owner, attribute);
                Ok(())
            },
            ConnectionInstruction::RolePlayer(rp) => {
                if rp.relation >= row.values.len() {
                    return Err(WriteError::RowPositionOutOfRange { position: rp.relation });
                }
                if rp.player >= row.values.len() {
                    return Err(WriteError::RowPositionOutOfRange { position: rp.player });
                }
                let relation = row.values[rp.relation];
                let player = row.values[rp.player];
                snapshot.delete_link(relation, player);
                Ok(())
            },
        }
    }
}

impl ConceptInstruction {
    /// Executes this vertex deletion against the row, through the concept
    /// manager.
    pub fn execute(
        &self,
        snapshot: &mut Snapshot,
        thing_manager: &ThingManager,
        _parameters: &ParameterRegistry,
        row: &Row,
    ) -> (r: Result<(), WriteError>)
        ensures
            r is Ok <==> apply_concept_spec(*self, row.values@, store_view(*old(snapshot))) is Ok,
            r is Ok ==> Ok::<StoreView, WriteError>(store_view(*final(snapshot)))
                == apply_concept_spec(*self, row.values@, store_view(*old(snapshot))),
            r matches Err(e) ==> apply_concept_spec(*self, row.values@, store_view(*old(snapshot)))
                == Err::<StoreView, WriteError>(e) && store_view(*final(snapshot)) == store_view(
                *old(snapshot),
            ),
            final(snapshot).attribute_types@ == old(snapshot).attribute_types@,
            final(snapshot).owns_declarations@ == old(snapshot).owns_declarations@,
            final(snapshot).type_labels@ == old(snapshot).type_labels@,
    {
        match self {
            ConceptInstruction::DeleteThing { thing } => {
                if *thing >= row.values.len() {
                    return Err(WriteError::RowPositionOutOfRange { position: *thing });
                }
                let t = row.values[*thing];
                thing_manager.delete_thing(snapshot, t)
            },
        }
    }
}

/// Executes a whole delete plan against one row: every connection
/// instruction, then every concept instruction, mutating the snapshot in
/// place. Row multiplicity is irrelevant: deleting the same thing through
/// duplicate rows is idempotent by construction. The row itself is left
/// unchanged.
pub fn execute_delete(
    executable: &DeleteExecutable,
    snapshot: &mut Snapshot,
    thing_manager: &ThingManager,
    parameters: &ParameterRegistry,
    input_output_row: &mut Row,
) -> (r: Result<(), Box<WriteError>>)
    ensures
        *final(input_output_row) == *old(input_output_row),
        r is Ok <==> run_delete_spec(
            *executable,
            old(input_output_row).values@,
            store_view(*old(snapshot)),
        ) is Ok,
        r is Ok ==> Ok::<StoreView, WriteError>(store_view(*final(snapshot))) == run_delete_spec(
            *executable,
            old(input_output_row).values@,
            store_view(*old(snapshot)),
        ),
        r matches Err(e) ==> run_delete_spec(
            *executable,
            old(input_output_row).values@,
            store_view(*old(snapshot)),
        ) == Err::<StoreView, WriteError>(*e),
        store_view(*final(snapshot)) == run_delete_partial_spec(
            *executable,
            old(input_output_row).values@,
            store_view(*old(snapshot)),
        ),
        final(snapshot).attribute_types@ == old(snapshot).attribute_types@,
        final(snapshot).owns_declarations@ == old(snapshot).owns_declarations@,
        final(snapshot).type_labels@ == old(snapshot).type_labels@,
{
    let ghost store0 = store_view(*snapshot);
    let ghost row_view = input_output_row.values@;
    let connections = &executable.connection_instructions;
    let mut i: usize = 0;
    proof {
        assert(connections@.skip(0) =~= connections@);
    }
    while i < connections.len()
        invariant
            i <= connections@.len(),
            connections@ == executable.connection_instructions@,
            row_view == input_output_row.values@,
            *input_output_row == *old(input_output_row),
            apply_connections_spec(connections@, row_view, store0) == apply_connections_spec(
                connections@.skip(i as int),
                row_view,
                store_view(*snapshot),
            ),
            apply_connections_partial_spec(connections@, row_view, store0)
                == apply_connections_partial_spec(
                connections@.skip(i as int),
                row_view,
                store_view(*snapshot),
            ),
            store0 == store_view(*old(snapshot)),
            snapshot.attribute_types@ == old(snapshot).attribute_types@,
            snapshot.owns_declarations@ == old(snapshot).owns_declarations@,
            snapshot.type_labels@ == old(snapshot).type_labels@,
        decreases connections@.len() - i,
    {
        proof {
            assert(connections@.skip(i as int).first() == connections@[i as int]);
            assert(connections@.skip(i as int).drop_first() =~= connections@.skip(i + 1));
        }
        let instruction = &connections[i];
        match instruction.execute(snapshot, thing_manager, parameters, input_output_row) {
            Ok(()) => {},
            Err(err) => {
                proof {
                    assert(connections@.skip(i as int).len() > 0);
                }
                return Err(Box::new(err));
            },
        }
        i = i + 1;
    }
    proof {
        assert(connections@.skip(connections@.len() as int) =~= Seq::<
            ConnectionInstruction,
        >::empty());
    }
    let concepts = &executable.concept_instructions;
    let ghost mid = store_view(*snapshot);
    let mut k: usize = 0;
    proof {
        assert(concepts@.skip(0) =~= concepts@);
    }
    while k < concepts.len()
        invariant
            k <= concepts@.len(),
            concepts@ == executable.concept_instructions@,
            row_view == input_output_row.values@,
            *input_output_row == *old(input_output_row),
            apply_connections_spec(executable.connection_instructions@, row_view, store0) == Ok::<
                StoreView,
                WriteError,
            >(mid),
            store0 == store_view(*old(snapshot)),
            apply_concepts_spec(concepts@, row_view, mid) == apply_concepts_spec(
                concepts@.skip(k as int),
                row_view,
                store_view(*snapshot),
            ),
            apply_concepts_partial_spec(concepts@, row_view, mid) == apply_concepts_partial_spec(
                concepts@.skip(k as int),
                row_view,
                store_view(*snapshot),
            ),
            snapshot.attribute_types@ == old(snapshot).attribute_types@,
            snapshot.owns_declarations@ == old(snapshot).owns_declarations@,
            snapshot.type_labels@ == old(snapshot).type_labels@,
        decreases concepts@.len() - k,
    {
        proof {
            assert(concepts@.skip(k as int).first() == concepts@[k as int]);
            assert(concepts@.skip(k as int).drop_first() =~= concepts@.skip(k + 1));
        }
        let instruction = &concepts[k];
        match instruction.execute(snapshot, thing_manager, parameters, input_output_row) {
            Ok(()) => {},
            Err(err) => {
                return Err(Box::new(err));
            },
        }
        k = k + 1;
    }
    proof {
        assert(concepts@.skip(concepts@.len() as int) =~= Seq::<ConceptInstruction>::empty());
    }
    Ok(())
}

// ---------------------------------------------------------------------
// Batch execution with cooperative interruption
// ---------------------------------------------------------------------

/// A stage-level failure: an instruction failed, or the run was
/// cooperatively interrupted.
#[derive(Clone, Copy, PartialEq, Eq, Structural, Debug)]
pub enum PipelineExecutionError {
    WriteError { source: WriteError },
    Interrupted { interrupt: InterruptType },
}

/// How many interrupt polls a delete stage has made once `i` rows are
/// processed: one per hundred rows, the first right after the first row.
pub open spec fn checks_for(i: int) -> int {
    if i <= 0 {
        0
    } else {
        (i - 1) / 100 + 1
    }
}

proof fn lemma_checks_for_step(i: int)
    requires
        i >= 0,
    ensures
        i % 100 == 0 ==> checks_for(i + 1) == checks_for(i) + 1,
        i % 100 != 0 ==> checks_for(i + 1) == checks_for(i),
        checks_for(i) <= i,
        checks_for(i + 1) <= i + 1,
{
    if i == 0 {
        assert(checks_for(1) == 1);
    } else {
        assert(i % 100 == 0 ==> i / 100 == (i - 1) / 100 + 1) by (nonlinear_arith)
            requires
                i > 0,
        ;
        assert(i % 100 != 0 ==> i / 100 == (i - 1) / 100) by (nonlinear_arith)
            requires
                i > 0,
        ;
        assert((i - 1) / 100 <= i - 1) by (nonlinear_arith)
            requires
                i >= 1,
        ;
        assert(i / 100 <= i) by (nonlinear_arith)
            requires
                i >= 0,
        ;
    }
}

proof fn lemma_checks_for_mono(i: int, j: int)
    requires
        0 <= i <= j,
    ensures
        checks_for(i) <= checks_for(j),
{
    if i > 0 {
        assert((i - 1) / 100 <= (j - 1) / 100) by (nonlinear_arith)
            requires
                0 < i <= j,
        ;
    }
}

/// One batch step: processing one more row applies the delete plan to the
/// state the previous rows reached.
proof fn lemma_run_batch_take_step(
    executable: DeleteExecutable,
    rows: Seq<Seq<u64>>,
    i: int,
    store: StoreView,
)
    requires
        0 <= i < rows.len(),
        run_batch_spec(executable, rows.take(i), store) is Ok,
    ensures
        run_batch_spec(executable, rows.take(i + 1), store) == run_delete_spec(
            executable,
            rows[i],
            run_batch_spec(executable, rows.take(i), store).unwrap(),
        ),
    decreases i,
{
    if i == 0 {
        let one = rows.take(1);
        assert(one[0] == rows[0]);
        assert(one.drop_first() =~= Seq::<Seq<u64>>::empty());
        assert(rows.take(0) =~= Seq::<Seq<u64>>::empty());
        match run_delete_spec(executable, rows[0], store) {
            Ok(next) => {
                assert(run_batch_spec(executable, Seq::<Seq<u64>>::empty(), next) == Ok::<
                    StoreView,
                    WriteError,
                >(next));
            },
            Err(_) => {},
        }
    } else {
        assert(rows.take(i + 1)[0] == rows[0]);
        assert(rows.take(i)[0] == rows[0]);
        assert(rows.take(i + 1).drop_first() =~= rows.drop_first().take(i));
        assert(rows.take(i).drop_first() =~= rows.drop_first().take(i - 1));
        assert(rows.drop_first()[i - 1] == rows[i]);
        lemma_run_batch_take_step(
            executable,
            rows.drop_first(),
            i - 1,
            run_delete_spec(executable, rows[0], store).unwrap(),
        );
    }
}

/// A successful batch run succeeds on every prefix.
pub proof fn lemma_run_batch_prefix_ok(
    executable: DeleteExecutable,
    rows: Seq<Seq<u64>>,
    k: int,
    store: StoreView,
)
    requires
        run_batch_spec(executable, rows, store) is Ok,
        0 <= k <= rows.len(),
    ensures
        run_batch_spec(executable, rows.take(k), store) is Ok,
    decreases k,
{
    if k == 0 {
        assert(rows.take(0) =~= Seq::<Seq<u64>>::empty());
    } else {
        assert(rows.take(k)[0] == rows[0]);
        assert(rows.take(k).drop_first() =~= rows.drop_first().take(k - 1));
        lemma_run_batch_prefix_ok(
            executable,
            rows.drop_first(),
            k - 1,
            run_delete_spec(executable, rows[0], store).unwrap(),
        );
    }
}

/// Executes a delete plan over a whole materialised batch, in row order,
/// polling the interrupt token once every hundred rows. On success the
/// batch comes back unchanged for the next stage. On a write error or an
/// observed interrupt the rows already processed stay processed: there is
/// no rollback at this layer.
#[verifier::loop_isolation(false)]
pub fn execute_delete_batch(
    executable: &DeleteExecutable,
    snapshot: &mut Snapshot,
    thing_manager: &ThingManager,
    parameters: &ParameterRegistry,
    batch: Batch,
    interrupt: &mut ExecutionInterrupt,
) -> (r: Result<Batch, PipelineExecutionError>)
    ensures
        final(interrupt).signal_at_spec() == old(interrupt).signal_at_spec(),
        final(snapshot).attribute_types@ == old(snapshot).attribute_types@,
        final(snapshot).owns_declarations@ == old(snapshot).owns_declarations@,
        final(snapshot).type_labels@ == old(snapshot).type_labels@,
        r matches Ok(b) ==> b.rows@ == batch.rows@ && Ok::<StoreView, WriteError>(
            store_view(*final(snapshot)),
        ) == run_batch_spec(*executable, batch.rows_view(), store_view(*old(snapshot))) && (
        old(interrupt).checks_made_spec() + checks_for(batch.rows@.len() as int) <= u64::MAX ==> (
        final(interrupt).checks_made_spec() == old(interrupt).checks_made_spec() + checks_for(
            batch.rows@.len() as int,
        ) && (batch.rows@.len() > 0 ==> (old(interrupt).signal_at_spec() matches Some(n) ==> final(
            interrupt
        ).checks_made_spec() < n)))),
        r matches Err(e) ==> (e matches PipelineExecutionError::WriteError { source } ==> (
        exists|i: int|
            0 <= i < batch.rows_view().len() && ((#[trigger] run_batch_spec(
                *executable,
                batch.rows_view().take(i),
                store_view(*old(snapshot)),
            )) matches Ok(mid) && run_delete_spec(*executable, batch.rows_view()[i], mid) == Err::<
                StoreView,
                WriteError,
            >(source) && store_view(*final(snapshot)) == run_delete_partial_spec(
                *executable,
                batch.rows_view()[i],
                mid,
            )))),
        r matches Err(e) ==> (e matches PipelineExecutionError::Interrupted { interrupt: it } ==> (
        exists|i: int|
            0 <= i < batch.rows_view().len() && i % 100 == 0 && ((#[trigger] run_batch_spec(
                *executable,
                batch.rows_view().take(i + 1),
                store_view(*old(snapshot)),
            )) matches Ok(reached) && store_view(*final(snapshot)) == reached) && (old(
                interrupt
            ).checks_made_spec() + checks_for(batch.rows@.len() as int) <= u64::MAX ==> (old(
                interrupt
            ).signal_at_spec() matches Some(n) && n <= old(interrupt).checks_made_spec()
                + checks_for(i + 1) && (i > 0 ==> old(interrupt).checks_made_spec() + checks_for(i)
                < n))))),
{
    let ghost store0 = store_view(*snapshot);
    let ghost all_rows = batch.rows@;
    let ghost rows_v = batch.rows_view();
    let ghost checks0 = old(interrupt).checks_made_spec();
    let Batch { rows } = batch;
    let mut remaining = rows;
    let mut processed: Vec<Row> = Vec::new();
    let total = remaining.len();
    proof {
        assert(remaining@.skip(0) =~= all_rows);
        assert(all_rows.take(0) =~= Seq::<Row>::empty());
        assert(rows_v.take(0) =~= Seq::<Seq<u64>>::empty());
        lemma_checks_for_mono(0, total as int);
    }
    let mut index: usize = 0;
    while index < total
        invariant
            index + remaining@.len() == total,
            total == all_rows.len(),
            rows_v == all_rows.map_values(|r: Row| r.values@),
            remaining@ == all_rows.skip(index as int),
            processed@ == all_rows.take(index as int),
            run_batch_spec(*executable, rows_v.take(index as int), store0) == Ok::<
                StoreView,
                WriteError,
            >(store_view(*snapshot)),
            interrupt.signal_at_spec() == old(interrupt).signal_at_spec(),
            checks0 + checks_for(total as int) <= u64::MAX ==> interrupt.checks_made_spec()
                == checks0 + checks_for(index as int),
            checks0 + checks_for(total as int) <= u64::MAX ==> (index > 0 ==> (
            interrupt.signal_at_spec() matches Some(n) ==> checks0 + checks_for(index as int)
                < n)),
            snapshot.attribute_types@ == old(snapshot).attribute_types@,
            snapshot.owns_declarations@ == old(snapshot).owns_declarations@,
            snapshot.type_labels@ == old(snapshot).type_labels@,
        decreases total - index,
    {
        let ghost before = remaining@;
        let mut row = remaining.remove(0);
        proof {
            assert(before[0] == all_rows.skip(index as int).first());
            assert(all_rows.skip(index as int).first() == all_rows[index as int]);
            assert(remaining@ =~= before.drop_first());
            assert(all_rows.skip(index as int).drop_first() =~= all_rows.skip(index + 1));
            assert(rows_v[index as int] == all_rows[index as int].values@);
        }
        match execute_delete(executable, snapshot, thing_manager, parameters, &mut row) {
            Ok(()) => {},
            Err(err) => {
                let e = PipelineExecutionError::WriteError { source: *err };
                proof {
                    let gi = index as int;
                    assert(run_batch_spec(*executable, rows_v.take(gi), store0) matches Ok(mid)
                        && run_delete_spec(*executable, rows_v[gi], mid) == Err::<
                        StoreView,
                        WriteError,
                    >(*err) && store_view(*snapshot) == run_delete_partial_spec(
                        *executable,
                        rows_v[gi],
                        mid,
                    ));
                }
                return Err(e);
            },
        }
        processed.push(row);
        proof {
            assert(all_rows.take(index + 1) =~= all_rows.take(index as int).push(
                all_rows[index as int],
            ));
            lemma_run_batch_take_step(*executable, rows_v, index as int, store0);
            lemma_checks_for_step(index as int);
            lemma_checks_for_mono(index + 1, total as int);
        }
        if index % 100 == 0 {
            match interrupt.check() {
                Some(interrupt_type) => {
                    let e = PipelineExecutionError::Interrupted { interrupt: interrupt_type };
                    proof {
                        let gi = index as int;
                        assert(run_batch_spec(*executable, rows_v.take(gi + 1), store0)
                            matches Ok(reached) && store_view(*snapshot) == reached);
                    }
                    return Err(e);
                },
                None => {},
            }
        }
        index = index + 1;
    }
    proof {
        assert(all_rows.take(total as int) =~= all_rows);
        assert(rows_v.take(total as int) =~= rows_v);
    }
    Ok(Batch { rows: processed })
}

// ---------------------------------------------------------------------
// The stage chain
// ---------------------------------------------------------------------

impl ExecutionInterrupt {
    /// A second token observing the same signal arrival, its own poll
    /// counter starting fresh: stages poll independently.
    pub fn clone_token(&self) -> (r: ExecutionInterrupt)
        ensures
            r.signal_at_spec() == self.signal_at_spec(),
            r.checks_made_spec() == 0,
    {
        ExecutionInterrupt { signal_at_check: self.signal_at_check, checks_made: 0 }
    }
}

/// What a running query carries across stage boundaries: the snapshot, the
/// concept manager and the parameter table. The snapshot is handed from
/// stage to stage by value, so a write stage owns it exclusively by
/// construction when its turn comes.
pub struct ExecutionContext {
    pub snapshot: Snapshot,
    pub thing_manager: ThingManager,
    pub parameters: ParameterRegistry,
}

/// A pull iterator over rows a stage has produced.
pub trait StageIterator: Sized {
    /// The rows this iterator will still yield.
    spec fn rows_spec(&self) -> Seq<Row>;

    /// Materialises the remaining rows into one owned batch.
    fn collect_owned(self) -> (r: Result<Batch, Box<PipelineExecutionError>>)
        ensures
            r matches Ok(b) ==> b.rows@ == self.rows_spec(),
    ;
}

/// Iterates rows a write stage has already materialised and mutated,
/// without touching storage again.
pub struct WrittenRowsIterator {
    batch: Batch,
    next_index: usize,
}

impl WrittenRowsIterator {
    pub fn new(batch: Batch) -> (r: WrittenRowsIterator)
        ensures
            r.rows_spec() == batch.rows@,
    {
        let r = WrittenRowsIterator { batch, next_index: 0 };
        proof {
            assert(r.batch.rows@.skip(0) =~= r.batch.rows@);
        }
        r
    }

    /// How many rows are still to be yielded.
    pub fn remaining_len(&self) -> (r: usize)
        ensures
            r == self.rows_spec().len(),
    {
        if self.next_index <= self.batch.rows.len() {
            self.batch.rows.len() - self.next_index
        } else {
            proof {
                assert(self.rows_spec() =~= Seq::<Row>::empty());
            }
            0
        }
    }
}

impl StageIterator for WrittenRowsIterator {
    closed spec fn rows_spec(&self) -> Seq<Row> {
        if self.next_index <= self.batch.rows@.len() {
            self.batch.rows@.skip(self.next_index as int)
        } else {
            Seq::empty()
        }
    }

    fn collect_owned(self) -> (r: Result<Batch, Box<PipelineExecutionError>>) {
        let WrittenRowsIterator { mut batch, next_index } = self;
        if next_index <= batch.rows.len() {
            let tail = batch.rows.split_off(next_index);
            proof {
                assert(tail@ =~= self.batch.rows@.skip(next_index as int));
            }
            Ok(Batch { rows: tail })
        } else {
            proof {
                assert(self.rows_spec() =~= Seq::<Row>::empty());
            }
            Ok(Batch { rows: Vec::new() })
        }
    }
}

/// One operator of the execution pipeline. A stage is consumed exactly
/// once: `into_iterator` either yields the stage's row iterator with the
/// updated execution context, or the error with the context as it stood at
/// failure, so the caller can still release it.
pub trait StageAPI: Sized {
    type OutputIterator: StageIterator;

    /// The stage's promise about a successful run: how the rows yielded
    /// and the context handed back relate to the stage's inputs.
    spec fn success_post(&self, output_rows: Seq<Row>, context: ExecutionContext) -> bool;

    fn into_iterator(self, interrupt: ExecutionInterrupt) -> (r: Result<
        (Self::OutputIterator, ExecutionContext),
        (Box<PipelineExecutionError>, ExecutionContext),
    >)
        ensures
            r matches Ok((out, context)) ==> self.success_post(out.rows_spec(), context),
    ;
}

/// The pipeline's source: a stage that yields an already materialised
/// batch together with the initial execution context.
pub struct InitialStage {
    pub batch: Batch,
    pub context: ExecutionContext,
}

impl StageAPI for InitialStage {
    type OutputIterator = WrittenRowsIterator;

    open spec fn success_post(&self, output_rows: Seq<Row>, context: ExecutionContext) -> bool {
        output_rows == self.batch.rows@ && context == self.context
    }

    fn into_iterator(self, _interrupt: ExecutionInterrupt) -> (r: Result<
        (Self::OutputIterator, ExecutionContext),
        (Box<PipelineExecutionError>, ExecutionContext),
    >)
        ensures
            r is Ok,
    {
        let InitialStage { batch, context } = self;
        Ok((WrittenRowsIterator::new(batch), context))
    }
}

/// The delete stage: materialises its predecessor's rows, takes the
/// snapshot over exclusively, and deletes what the plan names, row by row.
pub struct DeleteStageExecutor<PreviousStage> {
    pub executable: Arc<DeleteExecutable>,
    pub previous: PreviousStage,
}

impl<PreviousStage> DeleteStageExecutor<PreviousStage> {
    pub open spec fn executable_spec(&self) -> DeleteExecutable {
        *self.executable
    }

    pub fn new(executable: Arc<DeleteExecutable>, previous: PreviousStage) -> (r: Self)
        ensures
            r.executable_spec() == *executable,
    {
        DeleteStageExecutor { executable, previous }
    }
}

impl<PreviousStage: StageAPI> StageAPI for DeleteStageExecutor<PreviousStage> {
    type OutputIterator = WrittenRowsIterator;

    /// On success: the predecessor succeeded with some rows and context,
    /// those rows passed through unchanged, and the snapshot handed on is
    /// the predecessor's snapshot with the whole delete plan applied to
    /// every row, in order.
    open spec fn success_post(&self, output_rows: Seq<Row>, context: ExecutionContext) -> bool {
        exists|previous_rows: Seq<Row>, previous_context: ExecutionContext|
            {
                &&& #[trigger] self.previous.success_post(previous_rows, previous_context)
                &&& output_rows == previous_rows
                &&& Ok::<StoreView, WriteError>(store_view(context.snapshot)) == run_batch_spec(
                    *self.executable,
                    previous_rows.map_values(|r: Row| r.values@),
                    store_view(previous_context.snapshot),
                )
                &&& context.parameters == previous_context.parameters
            }
    }

    fn into_iterator(self, interrupt: ExecutionInterrupt) -> (r: Result<
        (Self::OutputIterator, ExecutionContext),
        (Box<PipelineExecutionError>, ExecutionContext),
    >) {
        let DeleteStageExecutor { executable, previous } = self;
        let (previous_iterator, context) = match previous.into_iterator(interrupt.clone_token()) {
            Ok(p) => p,
            Err(e) => {
                return Err(e);
            },
        };
        let ghost previous_context = context;
        // the predecessor has finished: this stage owns the context, and
        // with it the snapshot, exclusively
        let ExecutionContext { mut snapshot, thing_manager, parameters } = context;
        let batch = match previous_iterator.collect_owned() {
            Ok(batch) => batch,
            Err(err) => {
                return Err((err, ExecutionContext { snapshot, thing_manager, parameters }));
            },
        };
        let ghost previous_rows = batch.rows@;
        let mut own_interrupt = interrupt;
        match execute_delete_batch(
            &executable,
            &mut snapshot,
            &thing_manager,
            &parameters,
            batch,
            &mut own_interrupt,
        ) {
            Ok(written) => {
                let context = ExecutionContext { snapshot, thing_manager, parameters };
                let iterator = WrittenRowsIterator::new(written);
                proof {
                    assert(self.previous.success_post(previous_rows, previous_context));
                }
                Ok((iterator, context))
            },
            Err(err) => {
                let context = ExecutionContext { snapshot, thing_manager, parameters };
                Err((Box::new(err), context))
            },
        }
    }
}

// ---------------------------------------------------------------------
// Idempotence and ordering of delete
// ---------------------------------------------------------------------

/// No edge equal to `(o, a)` occurs.
pub open spec fn has_absent(edges: Seq<HasEdge>, o: u64, a: u64) -> bool {
    forall|i: int|
        0 <= i < edges.len() ==> !((#[trigger] edges[i]).owner == o && edges[i].attribute == a)
}

/// No link equal to `(rel, p)` occurs.
pub open spec fn link_absent(links: Seq<Link>, rel: u64, p: u64) -> bool {
    forall|i: int|
        0 <= i < links.len() ==> !((#[trigger] links[i]).relation == rel && links[i].player == p)
}

/// The thing `t` does not occur.
pub open spec fn thing_absent(things: Seq<u64>, t: u64) -> bool {
    forall|i: int| 0 <= i < things.len() ==> (#[trigger] things[i]) != t
}

proof fn lemma_remove_has_facts(e: Seq<HasEdge>, o: u64, a: u64)
    ensures
        has_absent(remove_has(e, o, a), o, a),
        forall|o2: u64, a2: u64|
            #![trigger has_absent(remove_has(e, o, a), o2, a2)]
            has_absent(e, o2, a2) ==> has_absent(remove_has(e, o, a), o2, a2),
        has_absent(e, o, a) ==> remove_has(e, o, a) == e,
    decreases e.len(),
{
    if e.len() == 0 {
        assert(remove_has(e, o, a) =~= e);
    } else {
        lemma_remove_has_facts(e.drop_first(), o, a);
        if has_absent(e, o, a) {
            assert(e[0] == e.first());
            assert forall|i: int| 0 <= i < e.drop_first().len() implies !((#[trigger] e.drop_first()[
                i]).owner == o && e.drop_first()[i].attribute == a) by {
                assert(e.drop_first()[i] == e[i + 1]);
            }
            assert(seq![e.first()] + e.drop_first() =~= e);
        }
        assert forall|o2: u64, a2: u64|
            has_absent(e, o2, a2) implies #[trigger] has_absent(remove_has(e, o, a), o2, a2) by {
            assert forall|i: int| 0 <= i < e.drop_first().len() implies !((
            #[trigger] e.drop_first()[i]).owner == o2 && e.drop_first()[i].attribute == a2) by {
                assert(e.drop_first()[i] == e[i + 1]);
            }
            assert(has_absent(e.drop_first(), o2, a2));
            assert(has_absent(remove_has(e.drop_first(), o, a), o2, a2));
            assert(e[0] == e.first());
            let result = remove_has(e, o, a);
            let rest = remove_has(e.drop_first(), o, a);
            if !(e.first().owner == o && e.first().attribute == a) {
                assert(result == seq![e.first()] + rest);
                assert forall|i: int| 0 <= i < result.len() implies !((#[trigger] result[i]).owner
                    == o2 && result[i].attribute == a2) by {
                    if i == 0 {
                        assert(result[0] == e.first());
                    } else {
                        assert(result[i] == rest[i - 1]);
                    }
                }
            }
        }
    }
}

proof fn lemma_remove_link_facts(e: Seq<Link>, rel: u64, p: u64)
    ensures
        link_absent(remove_link(e, rel, p), rel, p),
        forall|r2: u64, p2: u64|
            #![trigger link_absent(remove_link(e, rel, p), r2, p2)]
            link_absent(e, r2, p2) ==> link_absent(remove_link(e, rel, p), r2, p2),
        link_absent(e, rel, p) ==> remove_link(e, rel, p) == e,
    decreases e.len(),
{
    if e.len() == 0 {
        assert(remove_link(e, rel, p) =~= e);
    } else {
        lemma_remove_link_facts(e.drop_first(), rel, p);
        if link_absent(e, rel, p) {
            assert(e[0] == e.first());
            assert forall|i: int| 0 <= i < e.drop_first().len() implies !((#[trigger] e.drop_first()[
                i]).relation == rel && e.drop_first()[i].player == p) by {
                assert(e.drop_first()[i] == e[i + 1]);
            }
            assert(seq![e.first()] + e.drop_first() =~= e);
        }
        assert forall|r2: u64, p2: u64|
            link_absent(e, r2, p2) implies #[trigger] link_absent(
            remove_link(e, rel, p),
            r2,
            p2,
        ) by {
            assert forall|i: int| 0 <= i < e.drop_first().len() implies !((
            #[trigger] e.drop_first()[i]).relation == r2 && e.drop_first()[i].player == p2) by {
                assert(e.drop_first()[i] == e[i + 1]);
            }
            assert(link_absent(e.drop_first(), r2, p2));
            assert(link_absent(remove_link(e.drop_first(), rel, p), r2, p2));
            assert(e[0] == e.first());
            let result = remove_link(e, rel, p);
            let rest = remove_link(e.drop_first(), rel, p);
            if !(e.first().relation == rel && e.first().player == p) {
                assert(result == seq![e.first()] + rest);
                assert forall|i: int| 0 <= i < result.len() implies !((
                #[trigger] result[i]).relation == r2 && result[i].player == p2) by {
                    if i == 0 {
                        assert(result[0] == e.first());
                    } else {
                        assert(result[i] == rest[i - 1]);
                    }
                }
            }
        }
    }
}

proof fn lemma_remove_thing_facts(e: Seq<u64>, t: u64)
    ensures
        thing_absent(remove_thing(e, t), t),
        forall|t2: u64|
            #![trigger thing_absent(remove_thing(e, t), t2)]
            thing_absent(e, t2) ==> thing_absent(remove_thing(e, t), t2),
        thing_absent(e, t) ==> remove_thing(e, t) == e,
    decreases e.len(),
{
    if e.len() == 0 {
        assert(remove_thing(e, t) =~= e);
    } else {
        lemma_remove_thing_facts(e.drop_first(), t);
        if thing_absent(e, t) {
            assert(e[0] == e.first());
            assert forall|i: int| 0 <= i < e.drop_first().len() implies (#[trigger] e.drop_first()[
                i]) != t by {
                assert(e.drop_first()[i] == e[i + 1]);
            }
            assert(seq![e.first()] + e.drop_first() =~= e);
        }
        assert forall|t2: u64|
            thing_absent(e, t2) implies #[trigger] thing_absent(remove_thing(e, t), t2) by {
            assert forall|i: int| 0 <= i < e.drop_first().len() implies (#[trigger] e.drop_first()[
                i]) != t2 by {
                assert(e.drop_first()[i] == e[i + 1]);
            }
            assert(thing_absent(e.drop_first(), t2));
            assert(thing_absent(remove_thing(e.drop_first(), t), t2));
            assert(e[0] == e.first());
            let result = remove_thing(e, t);
            let rest = remove_thing(e.drop_first(), t);
            if !(e.first() == t) {
                assert(result == seq![e.first()] + rest);
                assert forall|i: int| 0 <= i < result.len() implies (#[trigger] result[i]) != t2 by {
                    if i == 0 {
                        assert(result[0] == e.first());
                    } else {
                        assert(result[i] == rest[i - 1]);
                    }
                }
            }
        }
    }
}

/// A successful connection phase leaves `things` untouched and keeps every
/// already absent edge and link absent.
proof fn lemma_connections_shape(
    instrs: Seq<ConnectionInstruction>,
    row: Seq<u64>,
    store: StoreView,
    mid: StoreView,
)
    requires
        apply_connections_spec(instrs, row, store) == Ok::<StoreView, WriteError>(mid),
    ensures
        mid.things == store.things,
        forall|o: u64, a: u64|
            #![trigger has_absent(mid.has_edges, o, a)]
            has_absent(store.has_edges, o, a) ==> has_absent(mid.has_edges, o, a),
        forall|rel: u64, p: u64|
            #![trigger link_absent(mid.links, rel, p)]
            link_absent(store.links, rel, p) ==> link_absent(mid.links, rel, p),
    decreases instrs.len(),
{
    if instrs.len() > 0 {
        let next = apply_connection_spec(instrs[0], row, store).unwrap();
        match instrs[0] {
            ConnectionInstruction::Has(h) => {
                lemma_remove_has_facts(
                    store.has_edges,
                    row[h.owner as int],
                    row[h.attribute as int],
                );
            },
            ConnectionInstruction::RolePlayer(rp) => {
                lemma_remove_link_facts(
                    store.links,
                    row[rp.relation as int],
                    row[rp.player as int],
                );
            },
        }
        lemma_connections_shape(instrs.drop_first(), row, next, mid);
    }
}

/// Applying a successful connection phase a second time changes nothing:
/// the edges it severs are already gone.
proof fn lemma_connections_reapply(
    instrs: Seq<ConnectionInstruction>,
    row: Seq<u64>,
    store: StoreView,
    mid: StoreView,
)
    requires
        apply_connections_spec(instrs, row, store) == Ok::<StoreView, WriteError>(mid),
    ensures
        apply_connections_spec(instrs, row, mid) == Ok::<StoreView, WriteError>(mid),
    decreases instrs.len(),
{
    if instrs.len() > 0 {
        let next = apply_connection_spec(instrs[0], row, store).unwrap();
        lemma_connections_reapply(instrs.drop_first(), row, next, mid);
        match instrs[0] {
            ConnectionInstruction::Has(h) => {
                let o = row[h.owner as int];
                let a = row[h.attribute as int];
                lemma_remove_has_facts(store.has_edges, o, a);
                lemma_connections_shape(instrs.drop_first(), row, next, mid);
                assert(has_absent(mid.has_edges, o, a));
                lemma_remove_has_facts(mid.has_edges, o, a);
                assert(apply_connection_spec(instrs[0], row, mid) == Ok::<StoreView, WriteError>(
                    mid,
                ));
            },
            ConnectionInstruction::RolePlayer(rp) => {
                let rel = row[rp.relation as int];
                let p = row[rp.player as int];
                lemma_remove_link_facts(store.links, rel, p);
                lemma_connections_shape(instrs.drop_first(), row, next, mid);
                assert(link_absent(mid.links, rel, p));
                lemma_remove_link_facts(mid.links, rel, p);
                assert(apply_connection_spec(instrs[0], row, mid) == Ok::<StoreView, WriteError>(
                    mid,
                ));
            },
        }
    }
}

/// A successful connection phase does not read `things`: changing it
/// beforehand changes it in the result alone.
proof fn lemma_connections_things_agnostic(
    instrs: Seq<ConnectionInstruction>,
    row: Seq<u64>,
    store: StoreView,
    mid: StoreView,
    things: Seq<u64>,
)
    requires
        apply_connections_spec(instrs, row, store) == Ok::<StoreView, WriteError>(mid),
    ensures
        apply_connections_spec(
            instrs,
            row,
            StoreView { things, has_edges: store.has_edges, links: store.links },
        ) == Ok::<StoreView, WriteError>(
            StoreView { things, has_edges: mid.has_edges, links: mid.links },
        ),
    decreases instrs.len(),
{
    if instrs.len() > 0 {
        let next = apply_connection_spec(instrs[0], row, store).unwrap();
        lemma_connections_things_agnostic(instrs.drop_first(), row, next, mid, things);
    }
}

/// A successful concept phase leaves edges and links untouched and keeps
/// every absent thing absent.
proof fn lemma_concepts_shape(
    instrs: Seq<ConceptInstruction>,
    row: Seq<u64>,
    mid: StoreView,
    fin: StoreView,
)
    requires
        apply_concepts_spec(instrs, row, mid) == Ok::<StoreView, WriteError>(fin),
    ensures
        fin.has_edges == mid.has_edges,
        fin.links == mid.links,
        forall|t: u64|
            #![trigger thing_absent(fin.things, t)]
            thing_absent(mid.things, t) ==> thing_absent(fin.things, t),
    decreases instrs.len(),
{
    if instrs.len() > 0 {
        let next = apply_concept_spec(instrs[0], row, mid).unwrap();
        match instrs[0] {
            ConceptInstruction::DeleteThing { thing } => {
                lemma_remove_thing_facts(mid.things, row[thing as int]);
            },
        }
        lemma_concepts_shape(instrs.drop_first(), row, next, fin);
    }
}

/// Applying a successful concept phase a second time changes nothing: the
/// things it deletes are already gone, and no new edge has appeared to
/// block the deletion.
proof fn lemma_concepts_reapply(
    instrs: Seq<ConceptInstruction>,
    row: Seq<u64>,
    mid: StoreView,
    fin: StoreView,
)
    requires
        apply_concepts_spec(instrs, row, mid) == Ok::<StoreView, WriteError>(fin),
    ensures
        apply_concepts_spec(instrs, row, fin) == Ok::<StoreView, WriteError>(fin),
    decreases instrs.len(),
{
    if instrs.len() > 0 {
        let next = apply_concept_spec(instrs[0], row, mid).unwrap();
        lemma_concepts_reapply(instrs.drop_first(), row, next, fin);
        match instrs[0] {
            ConceptInstruction::DeleteThing { thing } => {
                let t = row[thing as int];
                lemma_remove_thing_facts(mid.things, t);
                lemma_concepts_shape(instrs.drop_first(), row, next, fin);
                assert(thing_absent(fin.things, t));
                lemma_remove_thing_facts(fin.things, t);
                assert(!has_incident_edge(fin.has_edges, fin.links, t));
                assert(apply_concept_spec(instrs[0], row, fin) == Ok::<StoreView, WriteError>(fin));
            },
        }
    }
}

/// Law: deleting through the same row twice is idempotent. A second run of
/// a delete plan that has already succeeded on a row succeeds again and
/// changes nothing: the concept is deleted exactly once, and re-deleting
/// an already deleted concept neither fails nor double-counts.
pub proof fn lemma_run_delete_idempotent(
    executable: DeleteExecutable,
    row: Seq<u64>,
    store: StoreView,
    fin: StoreView,
)
    requires
        run_delete_spec(executable, row, store) == Ok::<StoreView, WriteError>(fin),
    ensures
        run_delete_spec(executable, row, fin) == Ok::<StoreView, WriteError>(fin),
{
    let conns = executable.connection_instructions@;
    let concepts = executable.concept_instructions@;
    let mid = apply_connections_spec(conns, row, store).unwrap();
    lemma_connections_reapply(conns, row, store, mid);
    lemma_concepts_shape(concepts, row, mid, fin);
    lemma_connections_things_agnostic(conns, row, mid, mid, fin.things);
    assert(StoreView { things: fin.things, has_edges: mid.has_edges, links: mid.links } == fin);
    assert(apply_connections_spec(conns, row, fin) == Ok::<StoreView, WriteError>(fin));
    lemma_concepts_reapply(concepts, row, mid, fin);
    assert(apply_concepts_spec(concepts, row, fin) == Ok::<StoreView, WriteError>(fin));
}

/// Law: a batch holding the same row twice deletes exactly what a batch
/// holding it once deletes, without error.
pub proof fn lemma_duplicate_row_batch(
    executable: DeleteExecutable,
    row: Seq<u64>,
    store: StoreView,
)
    requires
        run_delete_spec(executable, row, store) is Ok,
    ensures
        run_batch_spec(executable, seq![row, row], store) == run_delete_spec(
            executable,
            row,
            store,
        ),
{
    let fin = run_delete_spec(executable, row, store).unwrap();
    lemma_run_delete_idempotent(executable, row, store, fin);
    let two = seq![row, row];
    assert(two[0] == row);
    assert(two.drop_first() =~= seq![row]);
    assert(seq![row][0] == row);
    assert(seq![row].drop_first() =~= Seq::<Seq<u64>>::empty());
    assert(run_batch_spec(executable, Seq::<Seq<u64>>::empty(), fin) == Ok::<
        StoreView,
        WriteError,
    >(fin));
    assert(run_batch_spec(executable, seq![row], fin) == Ok::<StoreView, WriteError>(fin));
}

/// Law: within every row, the connection phase runs to completion strictly
/// before any concept instruction: the plan's effect is the concept phase
/// applied to the connection phase's result, never interleaved.
pub proof fn lemma_connections_before_concepts(
    executable: DeleteExecutable,
    row: Seq<u64>,
    store: StoreView,
    mid: StoreView,
)
    requires
        apply_connections_spec(executable.connection_instructions@, row, store) == Ok::<
            StoreView,
            WriteError,
        >(mid),
    ensures
        run_delete_spec(executable, row, store) == apply_concepts_spec(
            executable.concept_instructions@,
            row,
            mid,
        ),
{
}

/// Law: interrupt responsiveness. When a batch run is interrupted with the
/// signal having arrived while the second poll was awaited -- that is,
/// after the poll that follows the first row -- the abort happens exactly
/// after row one hundred: far before row two hundred, bounded by the poll
/// interval.
pub proof fn lemma_interrupt_stops_by_the_next_poll(i: int)
    requires
        i >= 0,
        i % 100 == 0,
        2 <= checks_for(i + 1),
        i > 0 ==> checks_for(i) < 2,
    ensures
        i == 100,
{
    lemma_checks_for_step(i);
    if i > 100 {
        assert((i - 1) / 100 >= 1) by (nonlinear_arith)
            requires
                i > 100,
        ;
    }
    if i == 0 {
        assert(checks_for(1) == 1);
    }
}

} // verus!
