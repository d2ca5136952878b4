//! Tests for the delete stage: instruction execution, idempotence,
//! severance-before-deletion ordering, cooperative interruption, and the
//! stage chain.

use std::sync::Arc;

use query_core::execution::{
    execute_delete, execute_delete_batch, Batch, ConceptInstruction, ConnectionInstruction,
    DeleteExecutable, DeleteStageExecutor, ExecutionContext, ExecutionInterrupt, HasInstruction,
    InitialStage, PipelineExecutionError, RolePlayerInstruction, Row, StageAPI, StageIterator,
    ThingManager, WriteError,
};
use query_core::fetch::ParameterRegistry;
use query_core::storage::{HasEdge, Link, Snapshot};

fn data_snapshot(things: Vec<u64>, has_edges: Vec<HasEdge>, links: Vec<Link>) -> Snapshot {
    Snapshot {
        attribute_types: vec![],
        owns_declarations: vec![],
        type_labels: vec![],
        things,
        has_edges,
        links,
    }
}

fn no_parameters() -> ParameterRegistry {
    ParameterRegistry { fetch_keys: vec![] }
}

fn row(values: Vec<u64>) -> Row {
    Row { values, multiplicity: 1 }
}

fn delete_first_with_has() -> DeleteExecutable {
    DeleteExecutable {
        connection_instructions: vec![ConnectionInstruction::Has(HasInstruction {
            owner: 0,
            attribute: 1,
        })],
        concept_instructions: vec![ConceptInstruction::DeleteThing { thing: 0 }],
    }
}

#[test]
fn delete_severs_the_edge_then_the_concept() {
    let mut snapshot = data_snapshot(
        vec![1, 2],
        vec![HasEdge { owner: 1, attribute: 9 }],
        vec![],
    );
    let mut r = row(vec![1, 9]);
    execute_delete(
        &delete_first_with_has(),
        &mut snapshot,
        &ThingManager::new(),
        &no_parameters(),
        &mut r,
    )
    .unwrap();
    assert_eq!(snapshot.things, vec![2]);
    assert!(snapshot.has_edges.is_empty());
}

#[test]
fn deleting_a_still_connected_concept_is_refused() {
    // no connection instruction severs the edge first, so the store
    // rejects the dangling reference
    let executable = DeleteExecutable {
        connection_instructions: vec![],
        concept_instructions: vec![ConceptInstruction::DeleteThing { thing: 0 }],
    };
    let mut snapshot = data_snapshot(
        vec![1],
        vec![HasEdge { owner: 1, attribute: 9 }],
        vec![],
    );
    let mut r = row(vec![1]);
    let err = execute_delete(
        &executable,
        &mut snapshot,
        &ThingManager::new(),
        &no_parameters(),
        &mut r,
    )
    .err()
    .unwrap();
    assert!(matches!(*err, WriteError::DeleteConnectedConcept { thing: 1 }));
    assert_eq!(snapshot.things, vec![1]);
}

#[test]
fn role_player_severance_unblocks_relation_deletion() {
    let executable = DeleteExecutable {
        connection_instructions: vec![ConnectionInstruction::RolePlayer(RolePlayerInstruction {
            relation: 0,
            player: 1,
        })],
        concept_instructions: vec![ConceptInstruction::DeleteThing { thing: 0 }],
    };
    let mut snapshot = data_snapshot(
        vec![5, 6],
        vec![],
        vec![Link { relation: 5, player: 6 }],
    );
    let mut r = row(vec![5, 6]);
    execute_delete(
        &executable,
        &mut snapshot,
        &ThingManager::new(),
        &no_parameters(),
        &mut r,
    )
    .unwrap();
    assert_eq!(snapshot.things, vec![6]);
    assert!(snapshot.links.is_empty());
}

#[test]
fn out_of_range_position_reports_a_write_error() {
    let executable = DeleteExecutable {
        connection_instructions: vec![],
        concept_instructions: vec![ConceptInstruction::DeleteThing { thing: 3 }],
    };
    let mut snapshot = data_snapshot(vec![1], vec![], vec![]);
    let mut r = row(vec![1]);
    let err = execute_delete(
        &executable,
        &mut snapshot,
        &ThingManager::new(),
        &no_parameters(),
        &mut r,
    )
    .err()
    .unwrap();
    assert!(matches!(*err, WriteError::RowPositionOutOfRange { position: 3 }));
}

#[test]
fn duplicate_rows_delete_idempotently() {
    // two rows denoting the same concept: no error, deleted exactly once
    let mut snapshot = data_snapshot(
        vec![1, 2],
        vec![HasEdge { owner: 1, attribute: 9 }],
        vec![],
    );
    let batch = Batch { rows: vec![row(vec![1, 9]), row(vec![1, 9])] };
    let mut interrupt = ExecutionInterrupt::new_unsignalled();
    let written = execute_delete_batch(
        &delete_first_with_has(),
        &mut snapshot,
        &ThingManager::new(),
        &no_parameters(),
        batch,
        &mut interrupt,
    )
    .unwrap();
    assert_eq!(written.rows.len(), 2);
    assert_eq!(snapshot.things, vec![2]);
    assert!(snapshot.has_edges.is_empty());
}

#[test]
fn batch_preserves_row_order_and_contents() {
    let executable = DeleteExecutable {
        connection_instructions: vec![],
        concept_instructions: vec![],
    };
    let mut snapshot = data_snapshot(vec![], vec![], vec![]);
    let batch = Batch { rows: vec![row(vec![4]), row(vec![7]), row(vec![5])] };
    let mut interrupt = ExecutionInterrupt::new_unsignalled();
    let written = execute_delete_batch(
        &executable,
        &mut snapshot,
        &ThingManager::new(),
        &no_parameters(),
        batch,
        &mut interrupt,
    )
    .unwrap();
    let values: Vec<u64> = written.rows.iter().map(|r| r.values[0]).collect();
    assert_eq!(values, vec![4, 7, 5]);
}

#[test]
fn interrupt_after_first_poll_aborts_before_row_two_hundred() {
    // 150 rows, each deleting its own thing; the signal arrives while the
    // second poll is awaited, i.e. after row zero's poll
    let executable = DeleteExecutable {
        connection_instructions: vec![],
        concept_instructions: vec![ConceptInstruction::DeleteThing { thing: 0 }],
    };
    let things: Vec<u64> = (0..150).collect();
    let rows: Vec<Row> = (0..150).map(|i| row(vec![i])).collect();
    let mut snapshot = data_snapshot(things, vec![], vec![]);
    let mut interrupt = ExecutionInterrupt::new_signalled_at_check(2);
    let err = execute_delete_batch(
        &executable,
        &mut snapshot,
        &ThingManager::new(),
        &no_parameters(),
        Batch { rows },
        &mut interrupt,
    )
    .err()
    .unwrap();
    assert!(matches!(err, PipelineExecutionError::Interrupted { .. }));
    // rows 0..=100 were processed before the poll at row 100 observed the
    // signal; rows 101..150 were not
    assert_eq!(snapshot.things, (101..150).collect::<Vec<u64>>());
}

#[test]
fn unsignalled_interrupt_lets_the_batch_complete() {
    let executable = DeleteExecutable {
        connection_instructions: vec![],
        concept_instructions: vec![ConceptInstruction::DeleteThing { thing: 0 }],
    };
    let things: Vec<u64> = (0..150).collect();
    let rows: Vec<Row> = (0..150).map(|i| row(vec![i])).collect();
    let mut snapshot = data_snapshot(things, vec![], vec![]);
    let mut interrupt = ExecutionInterrupt::new_unsignalled();
    execute_delete_batch(
        &executable,
        &mut snapshot,
        &ThingManager::new(),
        &no_parameters(),
        Batch { rows },
        &mut interrupt,
    )
    .unwrap();
    assert!(snapshot.things.is_empty());
}

#[test]
fn interrupt_token_polls_deterministically() {
    let mut unsignalled = ExecutionInterrupt::new_unsignalled();
    assert!(unsignalled.check().is_none());
    assert!(unsignalled.check().is_none());
    let mut early = ExecutionInterrupt::new_signalled_at_check(1);
    assert!(early.check().is_some());
    let mut later = ExecutionInterrupt::new_signalled_at_check(3);
    assert!(later.check().is_none());
    assert!(later.check().is_none());
    assert!(later.check().is_some());
    assert!(later.check().is_some());
}

#[test]
fn delete_stage_runs_after_its_predecessor() {
    let snapshot = data_snapshot(
        vec![1, 2, 3],
        vec![HasEdge { owner: 1, attribute: 9 }],
        vec![],
    );
    let context = ExecutionContext {
        snapshot,
        thing_manager: ThingManager::new(),
        parameters: no_parameters(),
    };
    let initial = InitialStage {
        batch: Batch { rows: vec![row(vec![1, 9]), row(vec![2, 9])] },
        context,
    };
    let stage = DeleteStageExecutor::new(Arc::new(delete_first_with_has()), initial);
    let (iterator, context) = stage
        .into_iterator(ExecutionInterrupt::new_unsignalled())
        .map_err(|_| ())
        .unwrap();
    assert_eq!(context.snapshot.things, vec![3]);
    assert!(context.snapshot.has_edges.is_empty());
    let collected = iterator.collect_owned().map_err(|_| ()).unwrap();
    assert_eq!(collected.rows.len(), 2);
    assert_eq!(collected.rows[0].values, vec![1, 9]);
    assert_eq!(collected.rows[1].values, vec![2, 9]);
}

#[test]
fn written_rows_iterator_reports_its_length() {
    let stage = InitialStage {
        batch: Batch { rows: vec![row(vec![1])] },
        context: ExecutionContext {
            snapshot: data_snapshot(vec![], vec![], vec![]),
            thing_manager: ThingManager::new(),
            parameters: no_parameters(),
        },
    };
    let (iterator, _context) = stage
        .into_iterator(ExecutionInterrupt::new_unsignalled())
        .map_err(|_| ())
        .unwrap();
    assert_eq!(iterator.remaining_len(), 1);
}

#[test]
fn batch_write_error_reports_the_failing_instruction() {
    let executable = DeleteExecutable {
        connection_instructions: vec![],
        concept_instructions: vec![ConceptInstruction::DeleteThing { thing: 0 }],
    };
    // the second row's concept still has an edge
    let mut snapshot = data_snapshot(
        vec![1, 2],
        vec![HasEdge { owner: 2, attribute: 9 }],
        vec![],
    );
    let batch = Batch { rows: vec![row(vec![1]), row(vec![2])] };
    let mut interrupt = ExecutionInterrupt::new_unsignalled();
    let err = execute_delete_batch(
        &executable,
        &mut snapshot,
        &ThingManager::new(),
        &no_parameters(),
        batch,
        &mut interrupt,
    )
    .err()
    .unwrap();
    assert!(matches!(
        err,
        PipelineExecutionError::WriteError {
            source: WriteError::DeleteConnectedConcept { thing: 2 }
        }
    ));
    // the first row's deletion stays applied: no rollback at this layer
    assert_eq!(snapshot.things, vec![2]);
}

#[test]
fn running_the_same_delete_twice_changes_nothing_more() {
    let mut snapshot = data_snapshot(
        vec![1, 2],
        vec![HasEdge { owner: 1, attribute: 9 }],
        vec![],
    );
    let executable = delete_first_with_has();
    let manager = ThingManager::new();
    let parameters = no_parameters();
    let mut r = row(vec![1, 9]);
    execute_delete(&executable, &mut snapshot, &manager, &parameters, &mut r).unwrap();
    let things_after_first = snapshot.things.clone();
    // the second run severs nothing and deletes an already absent concept
    execute_delete(&executable, &mut snapshot, &manager, &parameters, &mut r).unwrap();
    assert_eq!(snapshot.things, things_after_first);
    assert_eq!(snapshot.things, vec![2]);
}
