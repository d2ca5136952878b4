//! Tests for the fetch-annotation pass: attribute resolution, ownership and
//! cardinality validation, nested objects, functions and sub-queries.

use query_core::annotation::{
    annotate_fetch, AnnotatedFetchObject, AnnotatedFetchSome, AnnotationError,
    AnnotatedUnindexedFunctions, FunctionInferenceError, IndexedAnnotatedFunctions,
};
use query_core::fetch::{
    AnonymousFunction, FetchListAttributeAsList, FetchListAttributeFromList, FetchListSubFetch,
    FetchObject, FetchSingleAttribute, FetchSome, ParameterRegistry, Stage, TranslationContext,
    VariableRegistry, VariableTypeAnnotations, VariableValueAnnotations,
};
use query_core::function_signature::{DefinitionID, DefinitionKey, FunctionID};
use query_core::pattern::Disjunction;
use query_core::schema::{AnnotationCardinality, AttributeType, Type, TypeManager};
use query_core::storage::Snapshot;
use query_core::variable::{ParameterID, Variable};

const PERSON: Type = Type::Entity(1);
const COMPANY: Type = Type::Entity(2);
const AGE: AttributeType = AttributeType { id: 10 };

fn schema_snapshot(age_cardinalities: Vec<AnnotationCardinality>) -> Snapshot {
    Snapshot {
        attribute_types: vec![("age".to_string(), AGE)],
        owns_declarations: vec![query_core::schema::OwnsDeclaration {
            owner: query_core::schema::ObjectType::Entity(1),
            attribute: AGE,
            cardinalities: age_cardinalities,
        }],
        type_labels: vec![
            (PERSON, "person".to_string()),
            (COMPANY, "company".to_string()),
            (Type::Attribute(10), "age".to_string()),
        ],
        things: vec![],
        has_edges: vec![],
        links: vec![],
    }
}

fn person_variable() -> Variable {
    Variable { id: 0 }
}

fn registries() -> (VariableRegistry, ParameterRegistry) {
    (
        VariableRegistry { names: vec![(person_variable(), "p".to_string())] },
        ParameterRegistry { fetch_keys: vec![(ParameterID { id: 0 }, "age".to_string())] },
    )
}

fn person_annotations(types: Vec<Type>) -> VariableTypeAnnotations {
    VariableTypeAnnotations { entries: vec![(person_variable(), types)] }
}

fn no_functions() -> IndexedAnnotatedFunctions {
    IndexedAnnotatedFunctions { keys: vec![] }
}

fn age_fetch() -> FetchObject {
    FetchObject::Entries(vec![(
        ParameterID { id: 0 },
        FetchSome::SingleAttribute(FetchSingleAttribute {
            variable: person_variable(),
            attribute: "age".to_string(),
        }),
    )])
}

fn run_annotation(
    snapshot: &Snapshot,
    fetch: FetchObject,
    annotations: &VariableTypeAnnotations,
) -> Result<query_core::annotation::AnnotatedFetch, AnnotationError> {
    let (registry, parameters) = registries();
    annotate_fetch(
        fetch,
        snapshot,
        &TypeManager::new(),
        &registry,
        &parameters,
        &no_functions(),
        None,
        annotations,
        &VariableValueAnnotations { entries: vec![] },
    )
}

#[test]
fn single_attribute_with_cardinality_one_succeeds() {
    let snapshot = schema_snapshot(vec![AnnotationCardinality { start: 1, end: Some(1) }]);
    let annotations = person_annotations(vec![PERSON]);
    let annotated = run_annotation(&snapshot, age_fetch(), &annotations).unwrap();
    match annotated.object {
        AnnotatedFetchObject::Entries(entries) => {
            assert_eq!(entries.len(), 1);
            assert_eq!(entries[0].0, ParameterID { id: 0 });
            match &entries[0].1 {
                AnnotatedFetchSome::SingleAttribute(variable, attribute_type) => {
                    assert_eq!(*variable, person_variable());
                    assert_eq!(*attribute_type, AGE);
                },
                _ => panic!("expected a single-attribute annotation"),
            }
        },
        _ => panic!("expected entries"),
    }
}

#[test]
fn single_attribute_with_cardinality_up_to_three_fails() {
    let snapshot = schema_snapshot(vec![AnnotationCardinality { start: 0, end: Some(3) }]);
    let annotations = person_annotations(vec![PERSON]);
    let err = run_annotation(&snapshot, age_fetch(), &annotations).err().unwrap();
    match err {
        AnnotationError::FetchEntry { key, source } => {
            assert_eq!(key, "age");
            match *source {
                AnnotationError::AttributeFetchCardTooHigh { var, owner, attribute } => {
                    assert_eq!(var, "p");
                    assert_eq!(owner, "person");
                    assert_eq!(attribute, "age");
                },
                other => panic!("expected a cardinality error, got {:?}", other),
            }
        },
        other => panic!("expected an entry error, got {:?}", other),
    }
}

#[test]
fn single_attribute_with_unbounded_cardinality_succeeds() {
    // a constraint without an upper bound imposes no bound at all
    let snapshot = schema_snapshot(vec![AnnotationCardinality { start: 0, end: None }]);
    let annotations = person_annotations(vec![PERSON]);
    assert!(run_annotation(&snapshot, age_fetch(), &annotations).is_ok());
}

#[test]
fn single_attribute_not_owned_fails() {
    let snapshot = schema_snapshot(vec![AnnotationCardinality { start: 1, end: Some(1) }]);
    // company does not own age
    let annotations = person_annotations(vec![COMPANY]);
    let err = run_annotation(&snapshot, age_fetch(), &annotations).err().unwrap();
    match err {
        AnnotationError::FetchEntry { source, .. } => match *source {
            AnnotationError::FetchSingleAttributeNotOwned { var, owner, attribute } => {
                assert_eq!(var, "p");
                assert_eq!(owner, "company");
                assert_eq!(attribute, "age");
            },
            other => panic!("expected an ownership error, got {:?}", other),
        },
        other => panic!("expected an entry error, got {:?}", other),
    }
}

#[test]
fn unknown_attribute_name_fails() {
    let snapshot = schema_snapshot(vec![AnnotationCardinality { start: 1, end: Some(1) }]);
    let annotations = person_annotations(vec![PERSON]);
    let fetch = FetchObject::Entries(vec![(
        ParameterID { id: 0 },
        FetchSome::SingleAttribute(FetchSingleAttribute {
            variable: person_variable(),
            attribute: "height".to_string(),
        }),
    )]);
    let err = run_annotation(&snapshot, fetch, &annotations).err().unwrap();
    match err {
        AnnotationError::FetchEntry { source, .. } => match *source {
            AnnotationError::FetchAttributeNotFound { var, name } => {
                assert_eq!(var, "p");
                assert_eq!(name, "height");
            },
            other => panic!("expected attribute-not-found, got {:?}", other),
        },
        other => panic!("expected an entry error, got {:?}", other),
    }
}

#[test]
fn list_attributes_succeed_when_every_candidate_owns() {
    let snapshot = schema_snapshot(vec![AnnotationCardinality { start: 0, end: Some(7) }]);
    let annotations = person_annotations(vec![PERSON]);
    let fetch = FetchObject::Entries(vec![(
        ParameterID { id: 0 },
        FetchSome::ListAttributesAsList(FetchListAttributeAsList {
            variable: person_variable(),
            attribute: "age".to_string(),
        }),
    )]);
    let annotated = run_annotation(&snapshot, fetch, &annotations).unwrap();
    match annotated.object {
        AnnotatedFetchObject::Entries(entries) => match &entries[0].1 {
            AnnotatedFetchSome::ListAttributesAsList(variable, attribute_type) => {
                assert_eq!(*variable, person_variable());
                assert_eq!(*attribute_type, AGE);
            },
            _ => panic!("expected a list-attributes annotation"),
        },
        _ => panic!("expected entries"),
    }
}

#[test]
fn list_attributes_fail_when_one_candidate_does_not_own() {
    let snapshot = schema_snapshot(vec![AnnotationCardinality { start: 0, end: Some(7) }]);
    // person owns age, company does not: one missing ownership fails the whole annotation
    let annotations = person_annotations(vec![PERSON, COMPANY]);
    let fetch = FetchObject::Entries(vec![(
        ParameterID { id: 0 },
        FetchSome::ListAttributesAsList(FetchListAttributeAsList {
            variable: person_variable(),
            attribute: "age".to_string(),
        }),
    )]);
    let err = run_annotation(&snapshot, fetch, &annotations).err().unwrap();
    match err {
        AnnotationError::FetchEntry { source, .. } => match *source {
            AnnotationError::FetchAttributesNotOwned { var, owner, attribute } => {
                assert_eq!(var, "p");
                assert_eq!(owner, "company");
                assert_eq!(attribute, "age");
            },
            other => panic!("expected a list-ownership error, got {:?}", other),
        },
        other => panic!("expected an entry error, got {:?}", other),
    }
}

#[test]
fn list_attribute_from_list_is_a_declared_limitation() {
    let snapshot = schema_snapshot(vec![AnnotationCardinality { start: 1, end: Some(1) }]);
    let annotations = person_annotations(vec![PERSON]);
    let fetch = FetchObject::Entries(vec![(
        ParameterID { id: 0 },
        FetchSome::ListAttributesFromList(FetchListAttributeFromList {
            variable: person_variable(),
            attribute: "age".to_string(),
        }),
    )]);
    let err = run_annotation(&snapshot, fetch, &annotations).err().unwrap();
    match err {
        AnnotationError::FetchEntry { source, .. } => {
            assert!(matches!(*source, AnnotationError::Unimplemented { .. }));
        },
        other => panic!("expected an entry error, got {:?}", other),
    }
}

#[test]
fn single_var_and_all_attributes_pass_through() {
    let snapshot = schema_snapshot(vec![]);
    let annotations = person_annotations(vec![PERSON]);
    let fetch = FetchObject::Entries(vec![(
        ParameterID { id: 0 },
        FetchSome::SingleVar(person_variable()),
    )]);
    let annotated = run_annotation(&snapshot, fetch, &annotations).unwrap();
    match annotated.object {
        AnnotatedFetchObject::Entries(entries) => {
            assert!(matches!(entries[0].1, AnnotatedFetchSome::SingleVar(v) if v == person_variable()));
        },
        _ => panic!("expected entries"),
    }
    let attributes = FetchObject::Attributes(person_variable());
    let annotated = run_annotation(&snapshot, attributes, &annotations).unwrap();
    assert!(
        matches!(annotated.object, AnnotatedFetchObject::Attributes(v) if v == person_variable())
    );
}

#[test]
fn annotation_output_mirrors_nested_object_shape() {
    let snapshot = schema_snapshot(vec![AnnotationCardinality { start: 1, end: Some(1) }]);
    let annotations = person_annotations(vec![PERSON]);
    let inner = FetchObject::Entries(vec![(
        ParameterID { id: 0 },
        FetchSome::SingleAttribute(FetchSingleAttribute {
            variable: person_variable(),
            attribute: "age".to_string(),
        }),
    )]);
    let fetch = FetchObject::Entries(vec![(
        ParameterID { id: 0 },
        FetchSome::Object(Box::new(inner)),
    )]);
    let annotated = run_annotation(&snapshot, fetch, &annotations).unwrap();
    match annotated.object {
        AnnotatedFetchObject::Entries(entries) => match &entries[0].1 {
            AnnotatedFetchSome::Object(nested) => match nested.as_ref() {
                AnnotatedFetchObject::Entries(inner_entries) => {
                    assert_eq!(inner_entries.len(), 1);
                    assert!(matches!(
                        inner_entries[0].1,
                        AnnotatedFetchSome::SingleAttribute(_, _)
                    ));
                },
                _ => panic!("inner object lost its shape"),
            },
            _ => panic!("expected a nested object annotation"),
        },
        _ => panic!("expected entries"),
    }
}

#[test]
fn anonymous_function_with_annotated_arguments_succeeds() {
    let snapshot = schema_snapshot(vec![]);
    let annotations = person_annotations(vec![PERSON]);
    let fetch = FetchObject::Entries(vec![(
        ParameterID { id: 0 },
        FetchSome::SingleFunction(AnonymousFunction {
            arguments: vec![person_variable()],
            calls: vec![],
        }),
    )]);
    let annotated = run_annotation(&snapshot, fetch, &annotations).unwrap();
    match annotated.object {
        AnnotatedFetchObject::Entries(entries) => match &entries[0].1 {
            AnnotatedFetchSome::SingleFunction(af) => {
                assert_eq!(af.argument_annotations.len(), 1);
                assert_eq!(af.argument_annotations[0].0, person_variable());
                assert_eq!(af.argument_annotations[0].1, vec![PERSON]);
            },
            _ => panic!("expected a function annotation"),
        },
        _ => panic!("expected entries"),
    }
}

#[test]
fn anonymous_function_with_unannotated_argument_fails() {
    let snapshot = schema_snapshot(vec![]);
    let annotations = person_annotations(vec![PERSON]);
    let unknown = Variable { id: 9 };
    let fetch = FetchObject::Entries(vec![(
        ParameterID { id: 0 },
        FetchSome::ListFunction(AnonymousFunction { arguments: vec![unknown], calls: vec![] }),
    )]);
    let err = run_annotation(&snapshot, fetch, &annotations).err().unwrap();
    match err {
        AnnotationError::FetchEntry { source, .. } => match *source {
            AnnotationError::FetchBlockFunctionInferenceError { source: inner } => {
                assert!(matches!(
                    inner,
                    FunctionInferenceError::ArgumentNotAnnotated { variable } if variable == unknown
                ));
            },
            other => panic!("expected a function-inference error, got {:?}", other),
        },
        other => panic!("expected an entry error, got {:?}", other),
    }
}

#[test]
fn anonymous_function_calling_an_unknown_function_fails() {
    let snapshot = schema_snapshot(vec![]);
    let annotations = person_annotations(vec![PERSON]);
    let missing = FunctionID::Schema(DefinitionKey { definition_id: DefinitionID { id: 77 } });
    let fetch = FetchObject::Entries(vec![(
        ParameterID { id: 0 },
        FetchSome::SingleFunction(AnonymousFunction { arguments: vec![], calls: vec![missing] }),
    )]);
    let err = run_annotation(&snapshot, fetch, &annotations).err().unwrap();
    match err {
        AnnotationError::FetchEntry { source, .. } => match *source {
            AnnotationError::FetchBlockFunctionInferenceError { source: inner } => {
                assert!(matches!(
                    inner,
                    FunctionInferenceError::FunctionNotFound { id } if id == missing
                ));
            },
            other => panic!("expected a function-inference error, got {:?}", other),
        },
        other => panic!("expected an entry error, got {:?}", other),
    }
}

#[test]
fn anonymous_function_resolves_preamble_calls_against_the_preamble() {
    let snapshot = schema_snapshot(vec![]);
    let annotations = person_annotations(vec![PERSON]);
    let (registry, parameters) = registries();
    let fetch = FetchObject::Entries(vec![(
        ParameterID { id: 0 },
        FetchSome::SingleFunction(AnonymousFunction {
            arguments: vec![],
            calls: vec![FunctionID::Preamble(0)],
        }),
    )]);
    let preamble = AnnotatedUnindexedFunctions { indices: vec![0] };
    let r = annotate_fetch(
        fetch,
        &snapshot,
        &TypeManager::new(),
        &registry,
        &parameters,
        &no_functions(),
        Some(&preamble),
        &annotations,
        &VariableValueAnnotations { entries: vec![] },
    );
    assert!(r.is_ok());
}

#[test]
fn sub_fetch_annotates_with_its_own_context() {
    let snapshot = schema_snapshot(vec![AnnotationCardinality { start: 1, end: Some(1) }]);
    let annotations = person_annotations(vec![PERSON]);
    let sub_registry = VariableRegistry { names: vec![(person_variable(), "q".to_string())] };
    let sub_parameters =
        ParameterRegistry { fetch_keys: vec![(ParameterID { id: 5 }, "inner".to_string())] };
    let sub_fetch = FetchListSubFetch {
        context: TranslationContext {
            variable_registry: sub_registry,
            parameters: sub_parameters,
        },
        input_variables: vec![person_variable()],
        stages: vec![Stage::Match(Disjunction::new())],
        fetch: FetchObject::Entries(vec![(
            ParameterID { id: 5 },
            FetchSome::SingleAttribute(FetchSingleAttribute {
                variable: person_variable(),
                attribute: "age".to_string(),
            }),
        )]),
    };
    let fetch = FetchObject::Entries(vec![(
        ParameterID { id: 0 },
        FetchSome::ListSubFetch(sub_fetch),
    )]);
    let annotated = run_annotation(&snapshot, fetch, &annotations).unwrap();
    match annotated.object {
        AnnotatedFetchObject::Entries(entries) => match &entries[0].1 {
            AnnotatedFetchSome::ListSubFetch(sub) => {
                assert_eq!(sub.input_variables, vec![person_variable()]);
                assert_eq!(sub.stages.len(), 1);
                match &sub.fetch.object {
                    AnnotatedFetchObject::Entries(inner) => {
                        assert_eq!(inner[0].0, ParameterID { id: 5 });
                        assert!(matches!(
                            inner[0].1,
                            AnnotatedFetchSome::SingleAttribute(_, at) if at == AGE
                        ));
                    },
                    _ => panic!("sub-fetch lost its shape"),
                }
            },
            _ => panic!("expected a sub-fetch annotation"),
        },
        _ => panic!("expected entries"),
    }
}

#[test]
fn entry_error_names_the_failing_fetch_key() {
    let snapshot = schema_snapshot(vec![AnnotationCardinality { start: 1, end: Some(1) }]);
    let annotations = person_annotations(vec![PERSON]);
    let parameters = ParameterRegistry {
        fetch_keys: vec![
            (ParameterID { id: 0 }, "good".to_string()),
            (ParameterID { id: 1 }, "bad".to_string()),
        ],
    };
    let registry = VariableRegistry { names: vec![(person_variable(), "p".to_string())] };
    let fetch = FetchObject::Entries(vec![
        (ParameterID { id: 0 }, FetchSome::SingleVar(person_variable())),
        (
            ParameterID { id: 1 },
            FetchSome::SingleAttribute(FetchSingleAttribute {
                variable: person_variable(),
                attribute: "height".to_string(),
            }),
        ),
    ]);
    let err = annotate_fetch(
        fetch,
        &snapshot,
        &TypeManager::new(),
        &registry,
        &parameters,
        &no_functions(),
        None,
        &annotations,
        &VariableValueAnnotations { entries: vec![] },
    )
    .err()
    .unwrap();
    match err {
        AnnotationError::FetchEntry { key, .. } => assert_eq!(key, "bad"),
        other => panic!("expected an entry error, got {:?}", other),
    }
}

#[test]
fn the_largest_cardinality_bound_decides() {
    // two constraints: bounds one and two -- the maximum, two, is too high
    let snapshot = schema_snapshot(vec![
        AnnotationCardinality { start: 1, end: Some(1) },
        AnnotationCardinality { start: 0, end: Some(2) },
    ]);
    let annotations = person_annotations(vec![PERSON]);
    let err = run_annotation(&snapshot, age_fetch(), &annotations).err().unwrap();
    match err {
        AnnotationError::FetchEntry { source, .. } => {
            assert!(matches!(
                *source,
                AnnotationError::AttributeFetchCardTooHigh { .. }
            ));
        },
        other => panic!("expected an entry error, got {:?}", other),
    }
}

#[test]
fn a_bounded_one_beside_an_unbounded_constraint_succeeds() {
    // an unbounded constraint contributes no upper bound
    let snapshot = schema_snapshot(vec![
        AnnotationCardinality { start: 1, end: Some(1) },
        AnnotationCardinality { start: 0, end: None },
    ]);
    let annotations = person_annotations(vec![PERSON]);
    assert!(run_annotation(&snapshot, age_fetch(), &annotations).is_ok());
}

#[test]
fn an_ownership_without_constraints_succeeds_as_single() {
    let snapshot = schema_snapshot(vec![]);
    let annotations = person_annotations(vec![PERSON]);
    assert!(run_annotation(&snapshot, age_fetch(), &annotations).is_ok());
}
