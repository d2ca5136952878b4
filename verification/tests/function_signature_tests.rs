//! Tests for the function-signature index and function loading.

use query_core::function::{Function, FunctionDefinition, FunctionManagerError};
use query_core::function_signature::{
    build_signature, DefinitionID, DefinitionKey, FunctionID, FunctionSignature,
    FunctionSignatureIndex, HashMapFunctionSignatureIndex, MaybeOwns, ParsedFunction,
    ParsedSignature, VariableCategory, VariableOptionality,
};

fn parsed(name: &str, arguments: Vec<VariableCategory>) -> ParsedFunction {
    ParsedFunction {
        signature: ParsedSignature {
            ident: name.to_string(),
            arguments,
            return_slots: vec![(VariableCategory::Value, VariableOptionality::Required)],
            return_is_stream: false,
        },
    }
}

fn key(id: u64) -> DefinitionKey {
    DefinitionKey { definition_id: DefinitionID { id } }
}

fn signature_of(m: MaybeOwns<'_, FunctionSignature>) -> FunctionID {
    match m {
        MaybeOwns::Owned(s) => s.function_id,
        MaybeOwns::Borrowed(s) => s.function_id,
    }
}

#[test]
fn build_signature_copies_the_parsed_shape() {
    let f = parsed("mean", vec![VariableCategory::Attribute, VariableCategory::Value]);
    let s = build_signature(FunctionID::Preamble(3), &f);
    assert_eq!(s.function_id, FunctionID::Preamble(3));
    assert_eq!(s.arguments.len(), 2);
    assert_eq!(s.arguments[0], VariableCategory::Attribute);
    assert_eq!(s.return_slots.len(), 1);
    assert!(!s.return_is_stream);
}

#[test]
fn index_lookup_finds_a_built_function() {
    let index = HashMapFunctionSignatureIndex::build(vec![
        (FunctionID::Preamble(0), parsed("first", vec![])),
        (FunctionID::Schema(key(7)), parsed("second", vec![VariableCategory::Thing])),
    ]);
    let looked = index.get_function_signature("second").unwrap().unwrap();
    assert_eq!(signature_of(looked), FunctionID::Schema(key(7)));
}

#[test]
fn index_lookup_of_an_absent_name_is_none_not_an_error() {
    let index = HashMapFunctionSignatureIndex::build(vec![(
        FunctionID::Preamble(0),
        parsed("present", vec![]),
    )]);
    let looked = index.get_function_signature("absent").unwrap();
    assert!(looked.is_none());
}

#[test]
fn duplicate_names_resolve_to_exactly_one_signature_the_last() {
    let index = HashMapFunctionSignatureIndex::build(vec![
        (FunctionID::Preamble(0), parsed("twice", vec![])),
        (FunctionID::Preamble(1), parsed("other", vec![])),
        (FunctionID::Preamble(2), parsed("twice", vec![VariableCategory::Value])),
    ]);
    let looked = index.get_function_signature("twice").unwrap().unwrap();
    assert_eq!(signature_of(looked), FunctionID::Preamble(2));
    assert_eq!(index.into_map().len(), 2);
}

#[test]
fn empty_index_has_no_entries() {
    let index = HashMapFunctionSignatureIndex::empty();
    assert!(index.get_function_signature("anything").unwrap().is_none());
    assert_eq!(index.into_map().len(), 0);
}

#[test]
fn function_id_accessors_distinguish_schema_and_preamble() {
    let schema = FunctionID::Schema(key(11));
    let preamble = FunctionID::Preamble(4);
    assert_eq!(schema.as_definition_key(), Some(key(11)));
    assert_eq!(schema.as_preamble(), None);
    assert_eq!(schema.as_usize(), 11);
    assert_eq!(preamble.as_definition_key(), None);
    assert_eq!(preamble.as_preamble(), Some(4));
    assert_eq!(preamble.as_usize(), 4);
}

#[test]
fn function_id_from_conversions() {
    assert_eq!(FunctionID::from(5usize), FunctionID::Preamble(5));
    assert_eq!(FunctionID::from(key(9)), FunctionID::Schema(key(9)));
}

#[test]
fn function_build_succeeds_on_a_parsed_definition() {
    let definition = FunctionDefinition { parsed: Some(parsed("velocity", vec![])) };
    let function = Function::build(key(2), definition).unwrap();
    assert_eq!(function.function_id(), key(2));
    assert_eq!(function.name(), "velocity");
}

#[test]
fn function_build_rejects_an_unparsable_definition() {
    let definition = FunctionDefinition { parsed: None };
    let err = Function::build(key(2), definition).err().unwrap();
    assert!(matches!(err, FunctionManagerError::FunctionParse));
}

#[test]
fn function_signature_new_keeps_its_fields() {
    let s = FunctionSignature::new(
        FunctionID::Preamble(1),
        vec![VariableCategory::Object],
        vec![(VariableCategory::Value, VariableOptionality::Optional)],
        true,
    );
    assert_eq!(s.function_id(), FunctionID::Preamble(1));
    assert_eq!(s.arguments, vec![VariableCategory::Object]);
    assert!(s.return_is_stream);
}

#[test]
fn function_id_renders_its_kind_and_number() {
    assert_eq!(FunctionID::Preamble(42).display_string(), "QueryFunction#42");
    assert_eq!(FunctionID::Schema(key(0)).display_string(), "SchemaFunction#0");
    assert_eq!(FunctionID::Schema(key(1905)).display_string(), "SchemaFunction#1905");
}
