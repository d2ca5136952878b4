//! Tests for byte buffers, the pattern tree and the property-key layout.

use query_core::bytes::{ByteArray, ByteArrayOrRef};
use query_core::pattern::{
    BlockBuilderContext, Conjunction, ConjunctionBuilder, Disjunction, DisjunctionBuilder, ScopeId,
};
use query_core::property::{
    build_property_type_label, is_property_type_label_prefix, is_property_type_value_type, Infix,
    TypeVertex, TypeVertexProperty, BUFFER_KEY_INLINE,
};
use query_core::variable::Variable;

type KeyBytes<'a> = ByteArrayOrRef<'a, BUFFER_KEY_INLINE>;

#[test]
fn byte_array_or_ref_reads_both_forms() {
    let owned: KeyBytes = ByteArrayOrRef::Array(ByteArray::from_vec(vec![1, 2, 3]));
    assert_eq!(owned.bytes(), &[1, 2, 3]);
    assert_eq!(owned.length(), 3);
    let backing = [9u8, 8, 7, 6];
    let borrowed: KeyBytes = ByteArrayOrRef::Reference(&backing);
    assert_eq!(borrowed.bytes(), &[9, 8, 7, 6]);
    assert_eq!(borrowed.length(), 4);
}

#[test]
fn truncate_keeps_the_prefix_and_the_form() {
    let owned: KeyBytes = ByteArrayOrRef::Array(ByteArray::from_vec(vec![1, 2, 3, 4]));
    let truncated = owned.truncate(2);
    assert!(matches!(truncated, ByteArrayOrRef::Array(_)));
    assert_eq!(truncated.bytes(), &[1, 2]);
    let backing = [9u8, 8, 7];
    let borrowed: KeyBytes = ByteArrayOrRef::Reference(&backing);
    let truncated = borrowed.truncate(1);
    assert!(matches!(truncated, ByteArrayOrRef::Reference(_)));
    assert_eq!(truncated.bytes(), &[9]);
}

#[test]
fn unwrap_reference_returns_the_borrowed_slice() {
    let backing = [5u8, 4];
    let borrowed: KeyBytes = ByteArrayOrRef::Reference(&backing);
    assert_eq!(borrowed.unwrap_reference(), &[5, 4]);
}

#[test]
fn disjunction_builder_allocates_fresh_transparent_scopes() {
    let root = ScopeId { id: 0 };
    let mut context = BlockBuilderContext::new(root);
    let mut builder = DisjunctionBuilder::new(root, Disjunction::new());
    let mut first = builder.add_conjunction(&mut context);
    first.add_variable(Variable { id: 1 });
    first.add_variable(Variable { id: 2 });
    let first_scope = first.finish();
    builder.finish_conjunction(ConjunctionBuilder::new(first_scope));
    let mut second = builder.add_conjunction(&mut context);
    second.add_variable(Variable { id: 2 });
    builder.finish_conjunction(second);
    let disjunction = builder.into_disjunction();
    let conjunctions = disjunction.conjunctions();
    assert_eq!(conjunctions.len(), 2);
    // scope identifiers are unique and never reused
    assert!(conjunctions[0].scope_id() != conjunctions[1].scope_id());
    assert!(conjunctions[0].scope_id() != root);
}

#[test]
fn referenced_variables_keep_order_and_duplicates() {
    let root = ScopeId { id: 0 };
    let mut context = BlockBuilderContext::new(root);
    let mut builder = DisjunctionBuilder::new(root, Disjunction::new());
    let mut first = builder.add_conjunction(&mut context);
    first.add_variable(Variable { id: 1 });
    first.add_variable(Variable { id: 2 });
    builder.finish_conjunction(first);
    let mut second = builder.add_conjunction(&mut context);
    second.add_variable(Variable { id: 2 });
    builder.finish_conjunction(second);
    let disjunction = builder.into_disjunction();
    let variables = disjunction.referenced_variables();
    // no de-duplication here: callers needing a set must collect one
    assert_eq!(
        variables,
        vec![Variable { id: 1 }, Variable { id: 2 }, Variable { id: 2 }]
    );
}

#[test]
fn empty_disjunction_references_no_variables() {
    let disjunction = Disjunction::new();
    assert!(disjunction.conjunctions().is_empty());
    assert!(disjunction.referenced_variables().is_empty());
}

#[test]
fn conjunction_remembers_its_scope() {
    let scope = ScopeId { id: 4 };
    let conjunction = Conjunction::new(scope);
    assert_eq!(conjunction.scope_id(), scope);
    assert!(conjunction.referenced_variables().is_empty());
}

#[test]
fn property_key_layout_round_trips() {
    let vertex_bytes: KeyBytes = ByteArrayOrRef::Array(ByteArray::from_vec(vec![40, 0, 7]));
    let vertex = TypeVertex::new(vertex_bytes);
    let property = build_property_type_label(vertex);
    // prefix byte, three vertex bytes, infix byte
    assert_eq!(property.bytes(), &[30, 40, 0, 7, 100]);
    assert_eq!(property.infix(), Infix::PropertyLabel);
    assert_eq!(property.type_vertex().bytes(), &[40, 0, 7]);
    assert_eq!(property.suffix_length(), 0);
    assert!(property.suffix().is_none());
}

#[test]
fn suffixed_property_key_exposes_its_suffix() {
    let vertex_bytes: KeyBytes = ByteArrayOrRef::Array(ByteArray::from_vec(vec![40, 0, 7]));
    let vertex = TypeVertex::new(vertex_bytes);
    let suffix: ByteArrayOrRef<'_, 8> = ByteArrayOrRef::Array(ByteArray::from_vec(vec![1, 2]));
    let property = TypeVertexProperty::build_suffixed(vertex, Infix::PropertyValueType, suffix);
    assert_eq!(property.bytes(), &[30, 40, 0, 7, 101, 1, 2]);
    assert_eq!(property.suffix_length(), 2);
    assert_eq!(property.suffix().unwrap(), &[1, 2]);
}

#[test]
fn property_family_membership_checks_the_infix() {
    let label_key: KeyBytes = ByteArrayOrRef::Array(ByteArray::from_vec(vec![30, 40, 0, 7, 100]));
    assert!(is_property_type_label_prefix(&label_key));
    assert!(!is_property_type_value_type(&label_key));
    let other_prefix: KeyBytes =
        ByteArrayOrRef::Array(ByteArray::from_vec(vec![31, 40, 0, 7, 100]));
    assert!(!is_property_type_label_prefix(&other_prefix));
    let too_long: KeyBytes =
        ByteArrayOrRef::Array(ByteArray::from_vec(vec![30, 40, 0, 7, 100, 1]));
    assert!(!is_property_type_label_prefix(&too_long));
}

#[test]
fn build_prefix_is_the_single_family_byte() {
    let key = TypeVertexProperty::build_prefix();
    assert_eq!(key.bytes.bytes(), &[30]);
}
