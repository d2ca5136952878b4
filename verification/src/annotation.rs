//! The fetch-annotation pass: resolves a schema-agnostic fetch clause
//! against live schema metadata, producing an annotated tree of the same
//! shape whose leaves carry resolved types, or failing with a precise
//! diagnostic.
//!
//! Validation rules: a single-attribute projection demands that every
//! candidate owner type owns the attribute with a cardinality bound of at
//! most one; a list-attribute projection demands ownership by every
//! candidate type, with no cardinality bound. All failures are terminal for
//! the fetch clause; entry failures carry the fetch key they arose under.

use vstd::prelude::*;
use vstd::string::StringExecFns;
use crate::fetch::{
    annotations_of, fetch_key_of, variable_name_of, AnonymousFunction, FetchListSubFetch,
    FetchObject, FetchSome, ParameterRegistry, Stage, TranslationContext, VariableRegistry,
    VariableTypeAnnotations, VariableValueAnnotations,
};
use crate::function_signature::{DefinitionKey, FunctionID};
use crate::pattern::referenced_variables_of;
use crate::schema::{
    AnnotationCardinality, AttributeType, ConceptReadError, Label, Type, TypeManager,
};
use crate::storage::Snapshot;
use crate::variable::{ParameterID, Variable};

verus! {

// ---------------------------------------------------------------------
// Annotated-function context and anonymous-function inference
// ---------------------------------------------------------------------

/// The schema functions whose bodies are already annotated, available to
/// resolve calls inside anonymous fetch functions.
pub struct IndexedAnnotatedFunctions {
    pub keys: Vec<DefinitionKey>,
}

/// The query-local preamble functions already annotated, by preamble index.
pub struct AnnotatedUnindexedFunctions {
    pub indices: Vec<usize>,
}

/// Why inference of an anonymous fetch function failed.
#[derive(Clone, Copy, PartialEq, Eq, Structural, Debug)]
pub enum FunctionInferenceError {
    /// An argument variable has no candidate-type entry.
    ArgumentNotAnnotated { variable: Variable },
    /// The body calls a function that is annotated neither in the schema
    /// nor in the preamble.
    FunctionNotFound { id: FunctionID },
}

/// An anonymous function whose argument variables are resolved to their
/// candidate types.
pub struct AnnotatedFunction {
    pub function: AnonymousFunction,
    pub argument_annotations: Vec<(Variable, Vec<Type>)>,
}

/// Whether `id` resolves against the annotated schema functions or the
/// annotated preamble.
pub open spec fn function_known(
    id: FunctionID,
    indexed: IndexedAnnotatedFunctions,
    local: Option<&AnnotatedUnindexedFunctions>,
) -> bool {
    match id {
        FunctionID::Schema(key) => indexed.keys@.contains(key),
        FunctionID::Preamble(i) => match local {
            Some(l) => l.indices@.contains(i),
            None => false,
        },
    }
}

/// Inference succeeds exactly when every argument variable is annotated and
/// every called function is known.
pub open spec fn function_inference_ok(
    f: AnonymousFunction,
    annos: VariableTypeAnnotations,
    indexed: IndexedAnnotatedFunctions,
    local: Option<&AnnotatedUnindexedFunctions>,
) -> bool {
    (forall|i: int|
        0 <= i < f.arguments@.len() ==> annotations_of(annos.entries@, #[trigger] f.arguments@[i])
            is Some) && (forall|i: int|
        0 <= i < f.calls@.len() ==> function_known(#[trigger] f.calls@[i], indexed, local))
}

/// The inference error reported: the first unannotated argument, or, with
/// all arguments annotated, the first unknown call.
pub open spec fn function_error_matches(
    f: AnonymousFunction,
    annos: VariableTypeAnnotations,
    indexed: IndexedAnnotatedFunctions,
    local: Option<&AnnotatedUnindexedFunctions>,
    e: FunctionInferenceError,
) -> bool {
    (exists|i: int|
        0 <= i < f.arguments@.len() && (forall|j: int|
            0 <= j < i ==> annotations_of(annos.entries@, #[trigger] f.arguments@[j]) is Some)
            && annotations_of(annos.entries@, #[trigger] f.arguments@[i]) is None && e
            == (FunctionInferenceError::ArgumentNotAnnotated { variable: f.arguments@[i] })) || (
    (forall|i: int|
        0 <= i < f.arguments@.len() ==> annotations_of(annos.entries@, #[trigger] f.arguments@[i])
            is Some) && (exists|i: int|
        0 <= i < f.calls@.len() && (forall|j: int|
            0 <= j < i ==> function_known(#[trigger] f.calls@[j], indexed, local))
            && !function_known(#[trigger] f.calls@[i], indexed, local) && e
            == (FunctionInferenceError::FunctionNotFound { id: f.calls@[i] })))
}

/// The annotated form of an anonymous function: the function itself, with
/// one entry per argument carrying its candidate types, in argument order.
pub open spec fn annotated_function_matches(
    f: AnonymousFunction,
    annos: VariableTypeAnnotations,
    af: AnnotatedFunction,
) -> bool {
    &&& af.function == f
    &&& af.argument_annotations@.len() == f.arguments@.len()
    &&& forall|i: int|
        0 <= i < f.arguments@.len() ==> (#[trigger] af.argument_annotations@[i]).0
            == f.arguments@[i] && annotations_of(annos.entries@, f.arguments@[i]) == Some(
            af.argument_annotations@[i].1@,
        )
}

fn copy_types(source: &Vec<Type>) -> (r: Vec<Type>)
    ensures
        r@ == source@,
{
    let mut out: Vec<Type> = Vec::new();
    let mut i: usize = 0;
    while i < source.len()
        invariant
            i <= source.len(),
            out@ == source@.take(i as int),
        decreases source.len() - i,
    {
        out.push(source[i]);
        proof {
            assert(source@.take(i + 1) =~= source@.take(i as int).push(source@[i as int]));
        }
        i = i + 1;
    }
    proof {
        assert(source@.take(source@.len() as int) =~= source@);
    }
    out
}

fn contains_key(keys: &Vec<DefinitionKey>, key: DefinitionKey) -> (r: bool)
    ensures
        r == keys@.contains(key),
{
    let mut i: usize = 0;
    while i < keys.len()
        invariant
            i <= keys.len(),
            forall|j: int| 0 <= j < i ==> keys@[j] != key,
        decreases keys.len() - i,
    {
        if keys[i] == key {
            return true;
        }
        i = i + 1;
    }
    false
}

fn contains_index(indices: &Vec<usize>, index: usize) -> (r: bool)
    ensures
        r == indices@.contains(index),
{
    let mut i: usize = 0;
    while i < indices.len()
        invariant
            i <= indices.len(),
            forall|j: int| 0 <= j < i ==> indices@[j] != index,
        decreases indices.len() - i,
    {
        if indices[i] == index {
            return true;
        }
        i = i + 1;
    }
    false
}

/// Type-infers an anonymous fetch function against the input candidate-type
/// map and the available annotated functions. Succeeds exactly when every
/// argument is annotated and every call resolves; the error names the first
/// offender.
pub fn annotate_anonymous_function(
    function: AnonymousFunction,
    _snapshot: &Snapshot,
    _type_manager: &TypeManager,
    indexed_annotated_functions: &IndexedAnnotatedFunctions,
    local_functions: Option<&AnnotatedUnindexedFunctions>,
    input_type_annotations: &VariableTypeAnnotations,
    _input_value_type_annotations: &VariableValueAnnotations,
) -> (r: Result<AnnotatedFunction, FunctionInferenceError>)
    ensures
        r is Ok <==> function_inference_ok(
            function,
            *input_type_annotations,
            *indexed_annotated_functions,
            local_functions,
        ),
        r matches Ok(af) ==> annotated_function_matches(function, *input_type_annotations, af),
        r matches Err(e) ==> function_error_matches(
            function,
            *input_type_annotations,
            *indexed_annotated_functions,
            local_functions,
            e,
        ),
{
    let mut argument_annotations: Vec<(Variable, Vec<Type>)> = Vec::new();
    let mut i: usize = 0;
    while i < function.arguments.len()
        invariant
            i <= function.arguments@.len(),
            argument_annotations@.len() == i,
            forall|j: int|
                0 <= j < i ==> (#[trigger] argument_annotations@[j]).0 == function.arguments@[j]
                    && annotations_of(input_type_annotations.entries@, function.arguments@[j])
                    == Some(argument_annotations@[j].1@),
            forall|j: int|
                0 <= j < i ==> annotations_of(
                    input_type_annotations.entries@,
                    #[trigger] function.arguments@[j],
                ) is Some,
        decreases function.arguments@.len() - i,
    {
        let variable = function.arguments[i];
        match input_type_annotations.get(variable) {
            Some(types) => {
                let copied = copy_types(types);
                argument_annotations.push((variable, copied));
            },
            None => {
                proof {
                    let gi = i as int;
                    assert(annotations_of(
                        input_type_annotations.entries@,
                        function.arguments@[gi],
                    ) is None);
                    assert(function_error_matches(
                        function,
                        *input_type_annotations,
                        *indexed_annotated_functions,
                        local_functions,
                        FunctionInferenceError::ArgumentNotAnnotated {
                            variable: function.arguments@[gi],
                        },
                    ));
                }
                return Err(FunctionInferenceError::ArgumentNotAnnotated { variable });
            },
        }
        i = i + 1;
    }
    let mut k: usize = 0;
    while k < function.calls.len()
        invariant
            k <= function.calls@.len(),
            argument_annotations@.len() == function.arguments@.len(),
            forall|j: int|
                0 <= j < function.arguments@.len() ==> (#[trigger] argument_annotations@[j]).0
                    == function.arguments@[j] && annotations_of(
                    input_type_annotations.entries@,
                    function.arguments@[j],
                ) == Some(argument_annotations@[j].1@),
            forall|j: int|
                0 <= j < function.arguments@.len() ==> annotations_of(
                    input_type_annotations.entries@,
                    #[trigger] function.arguments@[j],
                ) is Some,
            forall|j: int|
                0 <= j < k ==> function_known(
                    #[trigger] function.calls@[j],
                    *indexed_annotated_functions,
                    local_functions,
                ),
        decreases function.calls@.len() - k,
    {
        let id = function.calls[k];
        let known = match id {
            FunctionID::Schema(key) => contains_key(&indexed_annotated_functions.keys, key),
            FunctionID::Preamble(index) => match local_functions {
                Some(l) => contains_index(&l.indices, index),
                None => false,
            },
        };
        if !known {
            proof {
                let gk = k as int;
                assert(!function_known(
                    function.calls@[gk],
                    *indexed_annotated_functions,
                    local_functions,
                ));
                assert(function_error_matches(
                    function,
                    *input_type_annotations,
                    *indexed_annotated_functions,
                    local_functions,
                    FunctionInferenceError::FunctionNotFound { id: function.calls@[gk] },
                ));
            }
            return Err(FunctionInferenceError::FunctionNotFound { id });
        }
        k = k + 1;
    }
    Ok(AnnotatedFunction { function, argument_annotations })
}

// ---------------------------------------------------------------------
// Ownership and cardinality validation
// ---------------------------------------------------------------------

/// The label the snapshot's schema records for `t`.
pub open spec fn type_label(snap: Snapshot, t: Type) -> Option<Seq<char>> {
    Snapshot::label_of(snap.type_labels@, t)
}

/// The label recorded for the attribute type `at`.
pub open spec fn attr_label(snap: Snapshot, at: AttributeType) -> Option<Seq<char>> {
    type_label(snap, Type::Attribute(at.id))
}

/// Whether `owner` declares ownership of `at`.
pub open spec fn owner_owns(snap: Snapshot, owner: Type, at: AttributeType) -> bool {
    Snapshot::owns_of(snap.owns_declarations@, owner.as_object_type_spec(), at) is Some
}

/// Whether some cardinality constraint has an upper bound above one.
pub open spec fn cards_too_high(cards: Seq<AnnotationCardinality>) -> bool {
    exists|i: int|
        0 <= i < cards.len() && ((#[trigger] cards[i]).end matches Some(e) && e > 1)
}

/// Whether `owner`'s ownership of `at` carries a cardinality bound above
/// one. An owner without the ownership carries no bound.
pub open spec fn owner_card_too_high(snap: Snapshot, owner: Type, at: AttributeType) -> bool {
    match Snapshot::owns_of(snap.owns_declarations@, owner.as_object_type_spec(), at) {
        Some(d) => cards_too_high(d.cardinalities@),
        None => false,
    }
}

/// A single-attribute fetch is valid exactly when every candidate owner
/// type owns the attribute and no cardinality bound exceeds one.
pub open spec fn single_ok(snap: Snapshot, owners: Seq<Type>, at: AttributeType) -> bool {
    forall|i: int|
        0 <= i < owners.len() ==> owner_owns(snap, #[trigger] owners[i], at) && !owner_card_too_high(
            snap,
            owners[i],
            at,
        )
}

/// A list-attribute fetch is valid exactly when every candidate owner type
/// owns the attribute; cardinality is unconstrained.
pub open spec fn streamable_ok(snap: Snapshot, owners: Seq<Type>, at: AttributeType) -> bool {
    forall|i: int| 0 <= i < owners.len() ==> owner_owns(snap, #[trigger] owners[i], at)
}

/// `e` reports that `owner` does not own `at`, with the owner's variable
/// name and both labels resolved. `single` selects the single-attribute
/// form of the diagnostic.
pub open spec fn not_owned_error(
    snap: Snapshot,
    var_name: Seq<char>,
    owner: Type,
    at: AttributeType,
    e: AnnotationError,
    single: bool,
) -> bool {
    if single {
        e matches AnnotationError::FetchSingleAttributeNotOwned { var, owner: o, attribute }
            && var@ == var_name && Some(o@) == type_label(snap, owner) && Some(attribute@)
            == attr_label(snap, at)
    } else {
        e matches AnnotationError::FetchAttributesNotOwned { var, owner: o, attribute } && var@
            == var_name && Some(o@) == type_label(snap, owner) && Some(attribute@) == attr_label(
            snap,
            at,
        )
    }
}

/// `e` reports a cardinality bound above one on `owner`'s ownership of
/// `at`.
pub open spec fn card_error(
    snap: Snapshot,
    var_name: Seq<char>,
    owner: Type,
    at: AttributeType,
    e: AnnotationError,
) -> bool {
    e matches AnnotationError::AttributeFetchCardTooHigh { var, owner: o, attribute } && var@
        == var_name && Some(o@) == type_label(snap, owner) && Some(attribute@) == attr_label(
        snap,
        at,
    )
}

/// `e` is the diagnostic for the first candidate owner that violates the
/// single-attribute rules: missing ownership reports the ownership, an
/// ownership with too high a bound reports the cardinality.
pub open spec fn single_violation_error(
    snap: Snapshot,
    var_name: Seq<char>,
    owners: Seq<Type>,
    at: AttributeType,
    e: AnnotationError,
) -> bool {
    exists|i: int|
        0 <= i < owners.len() && (forall|j: int|
            0 <= j < i ==> owner_owns(snap, #[trigger] owners[j], at) && !owner_card_too_high(
                snap,
                owners[j],
                at,
            )) && if !owner_owns(snap, #[trigger] owners[i], at) {
            not_owned_error(snap, var_name, owners[i], at, e, true)
        } else {
            owner_card_too_high(snap, owners[i], at) && card_error(snap, var_name, owners[i], at, e)
        }
}

/// `e` is the diagnostic for the first candidate owner without the
/// ownership, in the list-attribute form.
pub open spec fn streamable_violation_error(
    snap: Snapshot,
    var_name: Seq<char>,
    owners: Seq<Type>,
    at: AttributeType,
    e: AnnotationError,
) -> bool {
    exists|i: int|
        0 <= i < owners.len() && (forall|j: int|
            0 <= j < i ==> owner_owns(snap, #[trigger] owners[j], at)) && !owner_owns(
            snap,
            #[trigger] owners[i],
            at,
        ) && not_owned_error(snap, var_name, owners[i], at, e, false)
}

/// The requirements the schema invariant and upstream inference guarantee
/// for an attribute projection on `v`: the variable is named, its candidate
/// types are known, and each candidate is a labelled object type.
pub open spec fn attr_fetch_wf(
    v: Variable,
    registry: VariableRegistry,
    annos: VariableTypeAnnotations,
    snap: Snapshot,
) -> bool {
    &&& variable_name_of(registry.names@, v) is Some
    &&& annotations_of(annos.entries@, v) matches Some(cands) && (forall|i: int|
        0 <= i < cands.len() ==> (#[trigger] cands[i]).is_object() && type_label(snap, cands[i])
            is Some)
}

/// Every attribute type the schema declares carries a label.
pub open spec fn snapshot_schema_wf(snap: Snapshot) -> bool {
    forall|i: int|
        0 <= i < snap.attribute_types@.len() ==> attr_label(
            snap,
            (#[trigger] snap.attribute_types@[i]).1,
        ) is Some
}

/// An attribute type resolved by name stands in the schema's table.
pub proof fn lemma_attribute_named_present(
    entries: Seq<(String, AttributeType)>,
    name: Seq<char>,
    at: AttributeType,
)
    requires
        Snapshot::attribute_type_named(entries, name) == Some(at),
    ensures
        exists|i: int| 0 <= i < entries.len() && (#[trigger] entries[i]).1 == at,
    decreases entries.len(),
{
    if entries.len() > 0 {
        if entries.first().0@ == name {
            assert(entries[0] == entries.first());
        } else {
            lemma_attribute_named_present(entries.drop_first(), name, at);
            let i = choose|i: int|
                0 <= i < entries.drop_first().len() && (#[trigger] entries.drop_first()[i]).1 == at;
            assert(entries[i + 1] == entries.drop_first()[i]);
        }
    }
}

/// The largest upper bound among the given cardinality constraints, or
/// `None` when every constraint is unbounded.
pub fn max_cardinality_end(cards: &Vec<AnnotationCardinality>) -> (r: Option<u64>)
    ensures
        r is None ==> forall|i: int| 0 <= i < cards@.len() ==> (#[trigger] cards@[i]).end is None,
        r matches Some(m) ==> (exists|i: int|
            0 <= i < cards@.len() && (#[trigger] cards@[i]).end == Some(m)) && (forall|i: int|
            0 <= i < cards@.len() ==> ((#[trigger] cards@[i]).end matches Some(e) ==> e <= m)),
{
    let mut best: Option<u64> = None;
    let mut i: usize = 0;
    while i < cards.len()
        invariant
            i <= cards@.len(),
            best is None ==> forall|j: int|
                0 <= j < i ==> (#[trigger] cards@[j]).end is None,
            best matches Some(m) ==> (exists|j: int|
                0 <= j < i && (#[trigger] cards@[j]).end == Some(m)) && (forall|j: int|
                0 <= j < i ==> ((#[trigger] cards@[j]).end matches Some(e) ==> e <= m)),
        decreases cards@.len() - i,
    {
        let card = cards[i];
        match card.end() {
            Some(e) => {
                match best {
                    Some(m) => {
                        if e > m {
                            best = Some(e);
                        }
                    },
                    None => {
                        best = Some(e);
                    },
                }
            },
            None => {},
        }
        i = i + 1;
    }
    best
}

/// A cardinality bound above one exists exactly when the maximum bound is
/// above one.
pub proof fn lemma_max_card_characterises(cards: Seq<AnnotationCardinality>, r: Option<u64>)
    requires
        r is None ==> forall|i: int| 0 <= i < cards.len() ==> (#[trigger] cards[i]).end is None,
        r matches Some(m) ==> (exists|i: int|
            0 <= i < cards.len() && (#[trigger] cards[i]).end == Some(m)) && (forall|i: int|
            0 <= i < cards.len() ==> ((#[trigger] cards[i]).end matches Some(e) ==> e <= m)),
    ensures
        cards_too_high(cards) <==> (r matches Some(m) && m > 1),
{
}

/// Validates a single-attribute projection: every candidate owner type must
/// own `attribute_type` with no cardinality bound above one. `owner` is the
/// projected variable's source name, used in diagnostics.
pub fn validate_attribute_is_single(
    snapshot: &Snapshot,
    type_manager: &TypeManager,
    owner: &str,
    owner_types: &Vec<Type>,
    attribute_type: AttributeType,
) -> (r: Result<(), AnnotationError>)
    requires
        forall|i: int|
            0 <= i < owner_types@.len() ==> (#[trigger] owner_types@[i]).is_object() && type_label(
                *snapshot,
                owner_types@[i],
            ) is Some,
        attr_label(*snapshot, attribute_type) is Some,
    ensures
        r is Ok <==> single_ok(*snapshot, owner_types@, attribute_type),
        r matches Err(e) ==> single_violation_error(
            *snapshot,
            owner@,
            owner_types@,
            attribute_type,
            e,
        ),
{
    let mut i: usize = 0;
    while i < owner_types.len()
        invariant
            i <= owner_types@.len(),
            forall|i: int|
                0 <= i < owner_types@.len() ==> (#[trigger] owner_types@[i]).is_object()
                    && type_label(*snapshot, owner_types@[i]) is Some,
            attr_label(*snapshot, attribute_type) is Some,
            forall|j: int|
                0 <= j < i ==> owner_owns(*snapshot, #[trigger] owner_types@[j], attribute_type)
                    && !owner_card_too_high(*snapshot, owner_types@[j], attribute_type),
        decreases owner_types@.len() - i,
    {
        let owner_type = owner_types[i];
        let object_type = owner_type.as_object_type();
        let owns = match object_type.get_owns_attribute(snapshot, type_manager, attribute_type) {
            Ok(Some(owns)) => owns,
            Ok(None) => {
                let owner_label = match owner_type.get_label(snapshot, type_manager) {
                    Some(l) => l.clone(),
                    None => {
                        proof {
                            assert(false);
                        }
                        String::new()
                    },
                };
                let attribute_label = match Type::Attribute(attribute_type.id).get_label(
                    snapshot,
                    type_manager,
                ) {
                    Some(l) => l.clone(),
                    None => {
                        proof {
                            assert(false);
                        }
                        String::new()
                    },
                };
                return Err(AnnotationError::FetchSingleAttributeNotOwned {
                    var: String::from_str(owner),
                    owner: owner_label,
                    attribute: attribute_label,
                });
            },
            Err(source) => {
                return Err(AnnotationError::ConceptRead { source });
            },
        };
        let cards = match owns.get_cardinality_constraints(snapshot, type_manager) {
            Ok(cards) => cards,
            Err(source) => {
                return Err(AnnotationError::ConceptRead { source });
            },
        };
        let max_card = max_cardinality_end(cards);
        proof {
            lemma_max_card_characterises(cards@, max_card);
        }
        let too_high = match max_card {
            Some(m) => m > 1,
            None => false,
        };
        if too_high {
            let owner_label = match owner_type.get_label(snapshot, type_manager) {
                Some(l) => l.clone(),
                None => {
                    proof {
                        assert(false);
                    }
                    String::new()
                },
            };
            let attribute_label = match Type::Attribute(attribute_type.id).get_label(
                snapshot,
                type_manager,
            ) {
                Some(l) => l.clone(),
                None => {
                    proof {
                        assert(false);
                    }
                    String::new()
                },
            };
            return Err(AnnotationError::AttributeFetchCardTooHigh {
                var: String::from_str(owner),
                owner: owner_label,
                attribute: attribute_label,
            });
        }
        i = i + 1;
    }
    Ok(())
}

/// Validates a list-attribute projection for one candidate owner type:
/// ownership must exist; cardinality is not constrained.
pub fn validate_attribute_is_streamable(
    snapshot: &Snapshot,
    type_manager: &TypeManager,
    owner: &str,
    owner_type: Type,
    attribute_type: AttributeType,
) -> (r: Result<(), AnnotationError>)
    requires
        owner_type.is_object(),
        type_label(*snapshot, owner_type) is Some,
        attr_label(*snapshot, attribute_type) is Some,
    ensures
        r is Ok <==> owner_owns(*snapshot, owner_type, attribute_type),
        r matches Err(e) ==> not_owned_error(
            *snapshot,
            owner@,
            owner_type,
            attribute_type,
            e,
            false,
        ),
{
    let object_type = owner_type.as_object_type();
    match object_type.get_owns_attribute(snapshot, type_manager, attribute_type) {
        Ok(Some(_owns)) => Ok(()),
        Ok(None) => {
            let owner_label = match owner_type.get_label(snapshot, type_manager) {
                Some(l) => l.clone(),
                None => {
                    proof {
                        assert(false);
                    }
                    String::new()
                },
            };
            let attribute_label = match Type::Attribute(attribute_type.id).get_label(
                snapshot,
                type_manager,
            ) {
                Some(l) => l.clone(),
                None => {
                    proof {
                        assert(false);
                    }
                    String::new()
                },
            };
            Err(AnnotationError::FetchAttributesNotOwned {
                var: String::from_str(owner),
                owner: owner_label,
                attribute: attribute_label,
            })
        },
        Err(source) => Err(AnnotationError::ConceptRead { source }),
    }
}

// ---------------------------------------------------------------------
// Errors
// ---------------------------------------------------------------------

/// Why fetch annotation failed. All variants are terminal for the fetch
/// clause; `FetchEntry` wraps a nested failure with the fetch key it arose
/// under.
#[derive(Debug)]
pub enum AnnotationError {
    /// An underlying schema read failed.
    ConceptRead { source: ConceptReadError },
    /// The projected attribute name resolves to no attribute type.
    FetchAttributeNotFound { var: String, name: String },
    /// A candidate owner type does not own the single-fetched attribute.
    FetchSingleAttributeNotOwned { var: String, owner: String, attribute: String },
    /// A candidate owner type does not own the list-fetched attribute.
    FetchAttributesNotOwned { var: String, owner: String, attribute: String },
    /// A single-attribute fetch's ownership admits more than one value.
    AttributeFetchCardTooHigh { var: String, owner: String, attribute: String },
    /// A declared, stable limitation.
    Unimplemented { description: String },
    /// Inference of an anonymous fetch function failed.
    FetchBlockFunctionInferenceError { source: FunctionInferenceError },
    /// Annotation of one fetch entry failed; `key` is its fetch key.
    FetchEntry { key: String, source: Box<AnnotationError> },
}

// ---------------------------------------------------------------------
// Annotated fetch representation
// ---------------------------------------------------------------------

/// A fetch clause with every leaf resolved against the schema.
pub struct AnnotatedFetch {
    pub object: AnnotatedFetchObject,
}

/// One projected value, annotated: the same variant as its input, enriched
/// with the resolved attribute type or annotated function.
pub enum AnnotatedFetchSome {
    SingleVar(Variable),
    SingleAttribute(Variable, AttributeType),
    SingleFunction(AnnotatedFunction),
    Object(Box<AnnotatedFetchObject>),
    ListFunction(AnnotatedFunction),
    ListSubFetch(AnnotatedFetchListSubFetch),
    ListAttributesAsList(Variable, AttributeType),
    ListAttributesFromList(Variable, AttributeType),
}

/// An annotated fetch object, mirroring its input's shape.
pub enum AnnotatedFetchObject {
    Entries(Vec<(ParameterID, AnnotatedFetchSome)>),
    Attributes(Variable),
}

/// One annotated pipeline stage of a sub-query: the stage, with the
/// candidate types of the variables it references.
pub struct AnnotatedStage {
    pub stage: Stage,
    pub variable_annotations: VariableTypeAnnotations,
}

/// An annotated sub-query: its own resolved variable registry, the
/// variables it takes from the enclosing query, its annotated stages and
/// its annotated fetch clause.
pub struct AnnotatedFetchListSubFetch {
    pub variable_registry: VariableRegistry,
    pub input_variables: Vec<Variable>,
    pub stages: Vec<AnnotatedStage>,
    pub fetch: AnnotatedFetch,
}

// ---------------------------------------------------------------------
// Tree measures for termination
// ---------------------------------------------------------------------

pub open spec fn some_height(s: FetchSome) -> nat
    decreases s,
{
    match s {
        FetchSome::Object(b) => object_height(*b) + 1,
        FetchSome::ListSubFetch(sf) => object_height(sf.fetch) + 1,
        _ => 1,
    }
}

pub open spec fn object_height(o: FetchObject) -> nat
    decreases o,
{
    match o {
        FetchObject::Entries(es) => entries_height(es@) + 1,
        FetchObject::Attributes(_) => 1,
    }
}

pub open spec fn entries_height(es: Seq<(ParameterID, FetchSome)>) -> nat
    decreases es,
{
    if es.len() == 0 {
        1
    } else {
        let h = some_height(es[0].1);
        let rest = entries_height(es.drop_first());
        1 + (if h > rest {
            h
        } else {
            rest
        })
    }
}

proof fn lemma_entries_height_bound(es: Seq<(ParameterID, FetchSome)>, i: int)
    requires
        0 <= i < es.len(),
    ensures
        some_height(es[i].1) < entries_height(es),
    decreases es.len(),
{
    if i > 0 {
        lemma_entries_height_bound(es.drop_first(), i - 1);
        assert(es.drop_first()[i - 1] == es[i]);
    }
}

// ---------------------------------------------------------------------
// Well-formedness of the inputs the annotation pass relies on
// ---------------------------------------------------------------------

/// What upstream translation and inference guarantee of a projection: its
/// variables are named and annotated with labelled object types, and nested
/// objects are well-formed against their own contexts.
pub open spec fn some_wf(
    some: FetchSome,
    registry: VariableRegistry,
    params: ParameterRegistry,
    annos: VariableTypeAnnotations,
    snap: Snapshot,
) -> bool
    decreases some,
{
    match some {
        FetchSome::SingleVar(_) => true,
        FetchSome::SingleAttribute(fa) => attr_fetch_wf(fa.variable, registry, annos, snap),
        FetchSome::SingleFunction(_) => true,
        FetchSome::Object(b) => object_wf(*b, registry, params, annos, snap),
        FetchSome::ListFunction(_) => true,
        FetchSome::ListSubFetch(sf) => object_wf(
            sf.fetch,
            sf.context.variable_registry,
            sf.context.parameters,
            annos,
            snap,
        ),
        FetchSome::ListAttributesAsList(fa) => attr_fetch_wf(fa.variable, registry, annos, snap),
        FetchSome::ListAttributesFromList(_) => true,
    }
}

pub open spec fn object_wf(
    o: FetchObject,
    registry: VariableRegistry,
    params: ParameterRegistry,
    annos: VariableTypeAnnotations,
    snap: Snapshot,
) -> bool
    decreases o,
{
    match o {
        FetchObject::Entries(es) => forall|i: int|
            0 <= i < es@.len() ==> fetch_key_of(params.fetch_keys@, (#[trigger] es@[i]).0) is Some
                && some_wf(es@[i].1, registry, params, annos, snap),
        FetchObject::Attributes(_) => true,
    }
}

// ---------------------------------------------------------------------
// Success, output and error characterisation
// ---------------------------------------------------------------------

/// Whether annotation of one projection succeeds.
pub open spec fn some_ok(
    some: FetchSome,
    annos: VariableTypeAnnotations,
    indexed: IndexedAnnotatedFunctions,
    local: Option<&AnnotatedUnindexedFunctions>,
    snap: Snapshot,
) -> bool
    decreases some,
{
    match some {
        FetchSome::SingleVar(_) => true,
        FetchSome::SingleAttribute(fa) => match Snapshot::attribute_type_named(
            snap.attribute_types@,
            fa.attribute@,
        ) {
            None => false,
            Some(at) => annotations_of(annos.entries@, fa.variable) matches Some(cands)
                && single_ok(snap, cands, at),
        },
        FetchSome::SingleFunction(f) => function_inference_ok(f, annos, indexed, local),
        FetchSome::Object(b) => object_ok(*b, annos, indexed, local, snap),
        FetchSome::ListFunction(f) => function_inference_ok(f, annos, indexed, local),
        FetchSome::ListSubFetch(sf) => object_ok(sf.fetch, annos, indexed, local, snap),
        FetchSome::ListAttributesAsList(fa) => match Snapshot::attribute_type_named(
            snap.attribute_types@,
            fa.attribute@,
        ) {
            None => false,
            Some(at) => annotations_of(annos.entries@, fa.variable) matches Some(cands)
                && streamable_ok(snap, cands, at),
        },
        FetchSome::ListAttributesFromList(_) => false,
    }
}

pub open spec fn entries_ok(
    es: Seq<(ParameterID, FetchSome)>,
    annos: VariableTypeAnnotations,
    indexed: IndexedAnnotatedFunctions,
    local: Option<&AnnotatedUnindexedFunctions>,
    snap: Snapshot,
) -> bool
    decreases es,
{
    forall|i: int| 0 <= i < es.len() ==> some_ok((#[trigger] es[i]).1, annos, indexed, local, snap)
}

pub open spec fn object_ok(
    o: FetchObject,
    annos: VariableTypeAnnotations,
    indexed: IndexedAnnotatedFunctions,
    local: Option<&AnnotatedUnindexedFunctions>,
    snap: Snapshot,
) -> bool
    decreases o,
{
    match o {
        FetchObject::Entries(es) => entries_ok(es@, annos, indexed, local, snap),
        FetchObject::Attributes(_) => true,
    }
}

/// The candidate types attached to each referenced variable of a stage, in
/// reference order, variables without an entry skipped.
pub open spec fn stage_annotation_entries(vars: Seq<Variable>, annos: VariableTypeAnnotations)
    -> Seq<(Variable, Seq<Type>)>
    decreases vars.len(),
{
    if vars.len() == 0 {
        Seq::empty()
    } else {
        let rest = stage_annotation_entries(vars.drop_first(), annos);
        match annotations_of(annos.entries@, vars[0]) {
            Some(ts) => seq![(vars[0], ts)] + rest,
            None => rest,
        }
    }
}

/// The annotated form of one sub-query stage.
pub open spec fn stage_annotated(
    stage: Stage,
    out: AnnotatedStage,
    annos: VariableTypeAnnotations,
) -> bool {
    &&& out.stage == stage
    &&& match stage {
        Stage::Match(d) => out.variable_annotations.entries@.map_values(
            |p: (Variable, Vec<Type>)| (p.0, p.1@),
        ) == stage_annotation_entries(referenced_variables_of(d.conjunctions_spec()), annos),
    }
}

pub open spec fn stages_annotated(
    stages: Seq<Stage>,
    outs: Seq<AnnotatedStage>,
    annos: VariableTypeAnnotations,
) -> bool {
    &&& outs.len() == stages.len()
    &&& forall|i: int|
        0 <= i < stages.len() ==> stage_annotated(stages[i], #[trigger] outs[i], annos)
}

/// The exact annotated output a successful annotation produces for one
/// projection: the same variant, enriched with the resolved types.
pub open spec fn some_annotated(
    some: FetchSome,
    out: AnnotatedFetchSome,
    annos: VariableTypeAnnotations,
    snap: Snapshot,
) -> bool
    decreases some,
{
    match some {
        FetchSome::SingleVar(v) => out == AnnotatedFetchSome::SingleVar(v),
        FetchSome::SingleAttribute(fa) => out matches AnnotatedFetchSome::SingleAttribute(v, at)
            && v == fa.variable && Some(at) == Snapshot::attribute_type_named(
            snap.attribute_types@,
            fa.attribute@,
        ),
        FetchSome::SingleFunction(f) => out matches AnnotatedFetchSome::SingleFunction(af)
            && annotated_function_matches(f, annos, af),
        FetchSome::Object(b) => out matches AnnotatedFetchSome::Object(ob) && object_annotated(
            *b,
            *ob,
            annos,
            snap,
        ),
        FetchSome::ListFunction(f) => out matches AnnotatedFetchSome::ListFunction(af)
            && annotated_function_matches(f, annos, af),
        FetchSome::ListSubFetch(sf) => out matches AnnotatedFetchSome::ListSubFetch(asf)
            && asf.variable_registry == sf.context.variable_registry && asf.input_variables@
            == sf.input_variables@ && stages_annotated(sf.stages@, asf.stages@, annos)
            && object_annotated(sf.fetch, asf.fetch.object, annos, snap),
        FetchSome::ListAttributesAsList(fa) => out matches AnnotatedFetchSome::ListAttributesAsList(
            v,
            at,
        ) && v == fa.variable && Some(at) == Snapshot::attribute_type_named(
            snap.attribute_types@,
            fa.attribute@,
        ),
        FetchSome::ListAttributesFromList(_) => false,
    }
}

pub open spec fn entries_annotated(
    es: Seq<(ParameterID, FetchSome)>,
    aes: Seq<(ParameterID, AnnotatedFetchSome)>,
    annos: VariableTypeAnnotations,
    snap: Snapshot,
) -> bool
    decreases es,
{
    &&& aes.len() == es.len()
    &&& forall|i: int|
        0 <= i < es.len() ==> (#[trigger] aes[i]).0 == (#[trigger] es[i]).0 && some_annotated(
            es[i].1,
            aes[i].1,
            annos,
            snap,
        )
}

pub open spec fn object_annotated(
    o: FetchObject,
    out: AnnotatedFetchObject,
    annos: VariableTypeAnnotations,
    snap: Snapshot,
) -> bool
    decreases o,
{
    match o {
        FetchObject::Entries(es) => out matches AnnotatedFetchObject::Entries(aes)
            && entries_annotated(es@, aes@, annos, snap),
        FetchObject::Attributes(v) => out == AnnotatedFetchObject::Attributes(v),
    }
}

/// The diagnostic a failed annotation of one projection reports.
pub open spec fn some_error_matches(
    some: FetchSome,
    e: AnnotationError,
    registry: VariableRegistry,
    params: ParameterRegistry,
    annos: VariableTypeAnnotations,
    indexed: IndexedAnnotatedFunctions,
    local: Option<&AnnotatedUnindexedFunctions>,
    snap: Snapshot,
) -> bool
    decreases some,
{
    match some {
        FetchSome::SingleVar(_) => false,
        FetchSome::SingleAttribute(fa) => variable_name_of(registry.names@, fa.variable)
            matches Some(vn) && (match Snapshot::attribute_type_named(
            snap.attribute_types@,
            fa.attribute@,
        ) {
            None => e matches AnnotationError::FetchAttributeNotFound { var, name } && var@ == vn
                && name@ == fa.attribute@,
            Some(at) => annotations_of(annos.entries@, fa.variable) matches Some(cands)
                && single_violation_error(snap, vn, cands, at, e),
        }),
        FetchSome::SingleFunction(f) => e matches AnnotationError::FetchBlockFunctionInferenceError {
            source,
        } && function_error_matches(f, annos, indexed, local, source),
        FetchSome::Object(b) => object_error_matches(
            *b,
            e,
            registry,
            params,
            annos,
            indexed,
            local,
            snap,
        ),
        FetchSome::ListFunction(f) => e matches AnnotationError::FetchBlockFunctionInferenceError {
            source,
        } && function_error_matches(f, annos, indexed, local, source),
        FetchSome::ListSubFetch(sf) => object_error_matches(
            sf.fetch,
            e,
            sf.context.variable_registry,
            sf.context.parameters,
            annos,
            indexed,
            local,
            snap,
        ),
        FetchSome::ListAttributesAsList(fa) => variable_name_of(registry.names@, fa.variable)
            matches Some(vn) && (match Snapshot::attribute_type_named(
            snap.attribute_types@,
            fa.attribute@,
        ) {
            None => e matches AnnotationError::FetchAttributeNotFound { var, name } && var@ == vn
                && name@ == fa.attribute@,
            Some(at) => annotations_of(annos.entries@, fa.variable) matches Some(cands)
                && streamable_violation_error(snap, vn, cands, at, e),
        }),
        FetchSome::ListAttributesFromList(_) => e is Unimplemented,
    }
}

/// The diagnostic a failed annotation of an entry list reports: the first
/// failing entry's error, wrapped with its fetch key.
pub open spec fn entries_error_matches(
    es: Seq<(ParameterID, FetchSome)>,
    e: AnnotationError,
    registry: VariableRegistry,
    params: ParameterRegistry,
    annos: VariableTypeAnnotations,
    indexed: IndexedAnnotatedFunctions,
    local: Option<&AnnotatedUnindexedFunctions>,
    snap: Snapshot,
) -> bool
    decreases es,
{
    exists|i: int|
        0 <= i < es.len() && (forall|j: int|
            0 <= j < i ==> some_ok((#[trigger] es[j]).1, annos, indexed, local, snap)) && !some_ok(
            (#[trigger] es[i]).1,
            annos,
            indexed,
            local,
            snap,
        ) && (e matches AnnotationError::FetchEntry { key, source } && Some(key@)
            == fetch_key_of(params.fetch_keys@, es[i].0) && some_error_matches(
            es[i].1,
            *source,
            registry,
            params,
            annos,
            indexed,
            local,
            snap,
        ))
}

pub open spec fn object_error_matches(
    o: FetchObject,
    e: AnnotationError,
    registry: VariableRegistry,
    params: ParameterRegistry,
    annos: VariableTypeAnnotations,
    indexed: IndexedAnnotatedFunctions,
    local: Option<&AnnotatedUnindexedFunctions>,
    snap: Snapshot,
) -> bool
    decreases o,
{
    match o {
        FetchObject::Entries(es) => entries_error_matches(
            es@,
            e,
            registry,
            params,
            annos,
            indexed,
            local,
            snap,
        ),
        FetchObject::Attributes(_) => false,
    }
}

// ---------------------------------------------------------------------
// The annotation pass
// ---------------------------------------------------------------------

/// Annotates one projected value. One input variant maps to exactly one
/// output variant; any failure is terminal and reports the precise
/// diagnostic for the first violation found.
#[verifier::loop_isolation(false)]
pub fn annotate_some(
    some: FetchSome,
    snapshot: &Snapshot,
    type_manager: &TypeManager,
    variable_registry: &VariableRegistry,
    parameters: &ParameterRegistry,
    indexed_annotated_functions: &IndexedAnnotatedFunctions,
    local_functions: Option<&AnnotatedUnindexedFunctions>,
    input_type_annotations: &VariableTypeAnnotations,
    input_value_type_annotations: &VariableValueAnnotations,
) -> (r: Result<AnnotatedFetchSome, AnnotationError>)
    requires
        some_wf(some, *variable_registry, *parameters, *input_type_annotations, *snapshot),
        snapshot_schema_wf(*snapshot),
    ensures
        r is Ok <==> some_ok(
            some,
            *input_type_annotations,
            *indexed_annotated_functions,
            local_functions,
            *snapshot,
        ),
        r matches Ok(a) ==> some_annotated(some, a, *input_type_annotations, *snapshot),
        r matches Err(e) ==> some_error_matches(
            some,
            e,
            *variable_registry,
            *parameters,
            *input_type_annotations,
            *indexed_annotated_functions,
            local_functions,
            *snapshot,
        ),
    decreases some_height(some), 9int,
{
    match some {
        FetchSome::SingleVar(var) => Ok(AnnotatedFetchSome::SingleVar(var)),
        FetchSome::SingleAttribute(fa) => {
            let variable_name = if let Some(n) = variable_registry.get_variable_name(fa.variable) {
                n.clone()
            } else {
                proof {
                    assert(false);
                }
                String::new()
            };
            let label = Label::build(fa.attribute.clone());
            let resolved = match type_manager.get_attribute_type(snapshot, &label) {
                Ok(resolved) => resolved,
                Err(source) => {
                    return Err(AnnotationError::ConceptRead { source });
                },
            };
            let attribute_type = match resolved {
                Some(at) => at,
                None => {
                    return Err(AnnotationError::FetchAttributeNotFound {
                        var: variable_name,
                        name: fa.attribute,
                    });
                },
            };
            let owner_types = if let Some(t) = input_type_annotations.get(fa.variable) {
                t
            } else {
                proof {
                    assert(false);
                }
                return Err(AnnotationError::ConceptRead {
                    source: ConceptReadError::TransientRead,
                });
            };
            proof {
                lemma_attribute_named_present(
                    snapshot.attribute_types@,
                    fa.attribute@,
                    attribute_type,
                );
                let i = choose|i: int|
                    0 <= i < snapshot.attribute_types@.len() && (
                    #[trigger] snapshot.attribute_types@[i]).1 == attribute_type;
                assert(attr_label(*snapshot, attribute_type) is Some);
            }
            match validate_attribute_is_single(
                snapshot,
                type_manager,
                variable_name.as_str(),
                owner_types,
                attribute_type,
            ) {
                Ok(()) => Ok(AnnotatedFetchSome::SingleAttribute(fa.variable, attribute_type)),
                Err(err) => Err(err),
            }
        },
        FetchSome::SingleFunction(function) => {
            match annotate_anonymous_function(
                function,
                snapshot,
                type_manager,
                indexed_annotated_functions,
                local_functions,
                input_type_annotations,
                input_value_type_annotations,
            ) {
                Ok(annotated_function) => Ok(
                    AnnotatedFetchSome::SingleFunction(annotated_function),
                ),
                Err(err) => Err(
                    AnnotationError::FetchBlockFunctionInferenceError { source: err },
                ),
            }
        },
        FetchSome::Object(object) => {
            let inner = *object;
            match annotate_object(
                inner,
                snapshot,
                type_manager,
                variable_registry,
                parameters,
                indexed_annotated_functions,
                local_functions,
                input_type_annotations,
                input_value_type_annotations,
            ) {
                Ok(annotated) => Ok(AnnotatedFetchSome::Object(Box::new(annotated))),
                Err(err) => Err(err),
            }
        },
        FetchSome::ListFunction(function) => {
            match annotate_anonymous_function(
                function,
                snapshot,
                type_manager,
                indexed_annotated_functions,
                local_functions,
                input_type_annotations,
                input_value_type_annotations,
            ) {
                Ok(annotated_function) => Ok(AnnotatedFetchSome::ListFunction(annotated_function)),
                Err(err) => Err(
                    AnnotationError::FetchBlockFunctionInferenceError { source: err },
                ),
            }
        },
        FetchSome::ListSubFetch(sub_fetch) => {
            match annotate_sub_fetch(
                snapshot,
                type_manager,
                indexed_annotated_functions,
                local_functions,
                sub_fetch,
                input_type_annotations,
                input_value_type_annotations,
            ) {
                Ok(annotated) => Ok(AnnotatedFetchSome::ListSubFetch(annotated)),
                Err(err) => Err(err),
            }
        },
        FetchSome::ListAttributesAsList(fa) => {
            let variable_name = if let Some(n) = variable_registry.get_variable_name(fa.variable) {
                n.clone()
            } else {
                proof {
                    assert(false);
                }
                String::new()
            };
            let label = Label::build(fa.attribute.clone());
            let resolved = match type_manager.get_attribute_type(snapshot, &label) {
                Ok(resolved) => resolved,
                Err(source) => {
                    return Err(AnnotationError::ConceptRead { source });
                },
            };
            let attribute_type = match resolved {
                Some(at) => at,
                None => {
                    return Err(AnnotationError::FetchAttributeNotFound {
                        var: variable_name,
                        name: fa.attribute,
                    });
                },
            };
            let owner_types = if let Some(t) = input_type_annotations.get(fa.variable) {
                t
            } else {
                proof {
                    assert(false);
                }
                return Err(AnnotationError::ConceptRead {
                    source: ConceptReadError::TransientRead,
                });
            };
            proof {
                lemma_attribute_named_present(
                    snapshot.attribute_types@,
                    fa.attribute@,
                    attribute_type,
                );
                let i = choose|i: int|
                    0 <= i < snapshot.attribute_types@.len() && (
                    #[trigger] snapshot.attribute_types@[i]).1 == attribute_type;
                assert(attr_label(*snapshot, attribute_type) is Some);
            }
            let mut i: usize = 0;
            while i < owner_types.len()
                invariant
                    i <= owner_types@.len(),
                    annotations_of(input_type_annotations.entries@, fa.variable) == Some(
                        owner_types@,
                    ),
                    forall|k: int|
                        0 <= k < owner_types@.len() ==> (#[trigger] owner_types@[k]).is_object()
                            && type_label(*snapshot, owner_types@[k]) is Some,
                    attr_label(*snapshot, attribute_type) is Some,
                    variable_name_of(variable_registry.names@, fa.variable) == Some(
                        variable_name@,
                    ),
                    Snapshot::attribute_type_named(snapshot.attribute_types@, fa.attribute@)
                        == Some(attribute_type),
                    forall|j: int|
                        0 <= j < i ==> owner_owns(
                            *snapshot,
                            #[trigger] owner_types@[j],
                            attribute_type,
                        ),
                decreases owner_types@.len() - i,
            {
                let owner_type = owner_types[i];
                match validate_attribute_is_streamable(
                    snapshot,
                    type_manager,
                    variable_name.as_str(),
                    owner_type,
                    attribute_type,
                ) {
                    Ok(()) => {},
                    Err(err) => {
                        proof {
                            assert(streamable_violation_error(
                                *snapshot,
                                variable_name@,
                                owner_types@,
                                attribute_type,
                                err,
                            ));
                        }
                        return Err(err);
                    },
                }
                i = i + 1;
            }
            Ok(AnnotatedFetchSome::ListAttributesAsList(fa.variable, attribute_type))
        },
        FetchSome::ListAttributesFromList(_fa) => {
            Err(
                AnnotationError::Unimplemented {
                    description: String::from_str(
                        "fetching a list attribute from a list is not supported",
                    ),
                },
            )
        },
    }
}

/// Annotates every entry of a fetch object's key-to-projection mapping, in
/// entry order. A failing entry aborts the whole mapping; its error is
/// wrapped with the entry's fetch key, resolved to its source text.
#[verifier::loop_isolation(false)]
pub fn annotated_object_entries(
    entries: Vec<(ParameterID, FetchSome)>,
    snapshot: &Snapshot,
    type_manager: &TypeManager,
    variable_registry: &VariableRegistry,
    parameters: &ParameterRegistry,
    indexed_annotated_functions: &IndexedAnnotatedFunctions,
    local_functions: Option<&AnnotatedUnindexedFunctions>,
    input_type_annotations: &VariableTypeAnnotations,
    input_value_type_annotations: &VariableValueAnnotations,
) -> (r: Result<Vec<(ParameterID, AnnotatedFetchSome)>, AnnotationError>)
    requires
        forall|i: int|
            0 <= i < entries@.len() ==> fetch_key_of(
                parameters.fetch_keys@,
                (#[trigger] entries@[i]).0,
            ) is Some && some_wf(
                entries@[i].1,
                *variable_registry,
                *parameters,
                *input_type_annotations,
                *snapshot,
            ),
        snapshot_schema_wf(*snapshot),
    ensures
        r is Ok <==> entries_ok(
            entries@,
            *input_type_annotations,
            *indexed_annotated_functions,
            local_functions,
            *snapshot,
        ),
        r matches Ok(aes) ==> entries_annotated(
            entries@,
            aes@,
            *input_type_annotations,
            *snapshot,
        ),
        r matches Err(e) ==> entries_error_matches(
            entries@,
            e,
            *variable_registry,
            *parameters,
            *input_type_annotations,
            *indexed_annotated_functions,
            local_functions,
            *snapshot,
        ),
    decreases entries_height(entries@), 9int,
{
    let ghost all = entries@;
    let mut annotated_entries: Vec<(ParameterID, AnnotatedFetchSome)> = Vec::new();
    let mut remaining = entries;
    let total = remaining.len();
    proof {
        assert(remaining@.skip(0) =~= all);
    }
    let mut taken: usize = 0;
    while remaining.len() > 0
        invariant
            taken + remaining@.len() == total,
            total == all.len(),
            remaining@ == all.skip(taken as int),
            annotated_entries@.len() == taken,
            snapshot_schema_wf(*snapshot),
            forall|i: int|
                0 <= i < all.len() ==> fetch_key_of(parameters.fetch_keys@, (#[trigger] all[i]).0)
                    is Some && some_wf(
                    all[i].1,
                    *variable_registry,
                    *parameters,
                    *input_type_annotations,
                    *snapshot,
                ),
            forall|j: int|
                0 <= j < taken ==> some_ok(
                    (#[trigger] all[j]).1,
                    *input_type_annotations,
                    *indexed_annotated_functions,
                    local_functions,
                    *snapshot,
                ),
            forall|j: int|
                0 <= j < taken ==> (#[trigger] annotated_entries@[j]).0 == all[j].0
                    && some_annotated(
                    all[j].1,
                    annotated_entries@[j].1,
                    *input_type_annotations,
                    *snapshot,
                ),
        decreases remaining@.len(),
    {
        let ghost before = remaining@;
        let pair = remaining.remove(0);
        proof {
            assert(before[0] == all.skip(taken as int).first());
            assert(all.skip(taken as int).first() == all[taken as int]);
            assert(remaining@ =~= before.drop_first());
            assert(all.skip(taken as int).drop_first() =~= all.skip(taken + 1));
            assert(pair == all[taken as int]);
            lemma_entries_height_bound(all, taken as int);
        }
        let (key, value) = pair;
        match annotate_some(
            value,
            snapshot,
            type_manager,
            variable_registry,
            parameters,
            indexed_annotated_functions,
            local_functions,
            input_type_annotations,
            input_value_type_annotations,
        ) {
            Ok(annotated_value) => {
                annotated_entries.push((key, annotated_value));
            },
            Err(err) => {
                let key_name = if let Some(n) = parameters.fetch_key(key) {
                    n.clone()
                } else {
                    proof {
                        assert(false);
                    }
                    String::new()
                };
                let wrapped = AnnotationError::FetchEntry {
                    key: key_name,
                    source: Box::new(err),
                };
                proof {
                    assert(entries_error_matches(
                        all,
                        wrapped,
                        *variable_registry,
                        *parameters,
                        *input_type_annotations,
                        *indexed_annotated_functions,
                        local_functions,
                        *snapshot,
                    ));
                }
                return Err(wrapped);
            },
        }
        taken = taken + 1;
    }
    Ok(annotated_entries)
}

/// Annotates a fetch object: entries are annotated one by one; an
/// all-attributes object passes through unchanged.
pub fn annotate_object(
    object: FetchObject,
    snapshot: &Snapshot,
    type_manager: &TypeManager,
    variable_registry: &VariableRegistry,
    parameters: &ParameterRegistry,
    indexed_annotated_functions: &IndexedAnnotatedFunctions,
    local_functions: Option<&AnnotatedUnindexedFunctions>,
    input_type_annotations: &VariableTypeAnnotations,
    input_value_type_annotations: &VariableValueAnnotations,
) -> (r: Result<AnnotatedFetchObject, AnnotationError>)
    requires
        object_wf(object, *variable_registry, *parameters, *input_type_annotations, *snapshot),
        snapshot_schema_wf(*snapshot),
    ensures
        r is Ok <==> object_ok(
            object,
            *input_type_annotations,
            *indexed_annotated_functions,
            local_functions,
            *snapshot,
        ),
        r matches Ok(a) ==> object_annotated(object, a, *input_type_annotations, *snapshot),
        r matches Err(e) ==> object_error_matches(
            object,
            e,
            *variable_registry,
            *parameters,
            *input_type_annotations,
            *indexed_annotated_functions,
            local_functions,
            *snapshot,
        ),
    decreases object_height(object), 0int,
{
    match object {
        FetchObject::Entries(entries) => {
            match annotated_object_entries(
                entries,
                snapshot,
                type_manager,
                variable_registry,
                parameters,
                indexed_annotated_functions,
                local_functions,
                input_type_annotations,
                input_value_type_annotations,
            ) {
                Ok(annotated_entries) => Ok(AnnotatedFetchObject::Entries(annotated_entries)),
                Err(err) => Err(err),
            }
        },
        FetchObject::Attributes(attributes) => Ok(AnnotatedFetchObject::Attributes(attributes)),
    }
}

/// The candidate types attached to one referenced variable after another:
/// the spec list grows by one step.
proof fn lemma_sae_take_step(vars: Seq<Variable>, i: int, annos: VariableTypeAnnotations)
    requires
        0 <= i < vars.len(),
    ensures
        stage_annotation_entries(vars.take(i + 1), annos) == stage_annotation_entries(
            vars.take(i),
            annos,
        ) + (match annotations_of(annos.entries@, vars[i]) {
            Some(ts) => seq![(vars[i], ts)],
            None => Seq::<(Variable, Seq<Type>)>::empty(),
        }),
    decreases i,
{
    if i == 0 {
        let one = vars.take(1);
        assert(one[0] == vars[0]);
        assert(one.drop_first() =~= Seq::<Variable>::empty());
        assert(vars.take(0) =~= Seq::<Variable>::empty());
        assert(stage_annotation_entries(Seq::<Variable>::empty(), annos) =~= Seq::<
            (Variable, Seq<Type>),
        >::empty());
        match annotations_of(annos.entries@, vars[0]) {
            Some(ts) => {
                assert(stage_annotation_entries(one, annos) =~= seq![(vars[0], ts)]);
                assert(Seq::<(Variable, Seq<Type>)>::empty() + seq![(vars[0], ts)] =~= seq![
                    (vars[0], ts),
                ]);
            },
            None => {
                assert(stage_annotation_entries(one, annos) =~= Seq::<
                    (Variable, Seq<Type>),
                >::empty());
                assert(Seq::<(Variable, Seq<Type>)>::empty() + Seq::<
                    (Variable, Seq<Type>),
                >::empty() =~= Seq::<(Variable, Seq<Type>)>::empty());
            },
        }
    } else {
        assert(vars.take(i + 1)[0] == vars[0]);
        assert(vars.take(i)[0] == vars[0]);
        assert(vars.take(i + 1).drop_first() =~= vars.drop_first().take(i));
        assert(vars.take(i).drop_first() =~= vars.drop_first().take(i - 1));
        assert(vars.drop_first()[i - 1] == vars[i]);
        lemma_sae_take_step(vars.drop_first(), i - 1, annos);
        let m = match annotations_of(annos.entries@, vars[i]) {
            Some(ts) => seq![(vars[i], ts)],
            None => Seq::<(Variable, Seq<Type>)>::empty(),
        };
        match annotations_of(annos.entries@, vars[0]) {
            Some(ts0) => {
                assert(seq![(vars[0], ts0)] + (stage_annotation_entries(
                    vars.drop_first().take(i - 1),
                    annos,
                ) + m) =~= (seq![(vars[0], ts0)] + stage_annotation_entries(
                    vars.drop_first().take(i - 1),
                    annos,
                )) + m);
            },
            None => {},
        }
    }
}

/// Annotates one sub-query stage: the stage is kept and enriched with the
/// candidate types of the variables it references. Stage annotation itself
/// never fails; upstream inference supplied the candidate map.
pub fn annotate_match_stage(stage: Stage, input_type_annotations: &VariableTypeAnnotations) -> (r:
    AnnotatedStage)
    ensures
        stage_annotated(stage, r, *input_type_annotations),
{
    let entries: Vec<(Variable, Vec<Type>)> = match &stage {
        Stage::Match(disjunction) => {
            let vars = disjunction.referenced_variables();
            let mut collected: Vec<(Variable, Vec<Type>)> = Vec::new();
            let mut i: usize = 0;
            proof {
                assert(vars@.take(0) =~= Seq::<Variable>::empty());
            }
            while i < vars.len()
                invariant
                    i <= vars@.len(),
                    vars@ == referenced_variables_of(disjunction.conjunctions_spec()),
                    collected@.map_values(|p: (Variable, Vec<Type>)| (p.0, p.1@))
                        == stage_annotation_entries(
                        vars@.take(i as int),
                        *input_type_annotations,
                    ),
                decreases vars@.len() - i,
            {
                let v = vars[i];
                let ghost pre = collected@;
                proof {
                    lemma_sae_take_step(vars@, i as int, *input_type_annotations);
                }
                match input_type_annotations.get(v) {
                    Some(ts) => {
                        let copied = copy_types(ts);
                        collected.push((v, copied));
                        proof {
                            assert(collected@.map_values(|p: (Variable, Vec<Type>)| (p.0, p.1@))
                                =~= pre.map_values(|p: (Variable, Vec<Type>)| (p.0, p.1@)) + seq![
                                (v, ts@),
                            ]);
                        }
                    },
                    None => {
                        proof {
                            assert(pre.map_values(|p: (Variable, Vec<Type>)| (p.0, p.1@)) + Seq::<
                                (Variable, Seq<Type>),
                            >::empty() =~= pre.map_values(
                                |p: (Variable, Vec<Type>)| (p.0, p.1@),
                            ));
                        }
                    },
                }
                i = i + 1;
            }
            proof {
                assert(vars@.take(vars@.len() as int) =~= vars@);
            }
            collected
        },
    };
    AnnotatedStage { stage, variable_annotations: VariableTypeAnnotations { entries } }
}

/// Annotates a sub-query's stages, then its fetch clause. The stage
/// annotator never fails; a fetch failure aborts the sub-query.
pub fn annotate_stages_and_fetch(
    snapshot: &Snapshot,
    type_manager: &TypeManager,
    schema_function_annotations: &IndexedAnnotatedFunctions,
    variable_registry: &VariableRegistry,
    parameters: &ParameterRegistry,
    annotated_preamble: Option<&AnnotatedUnindexedFunctions>,
    stages: Vec<Stage>,
    fetch: FetchObject,
    input_type_annotations: &VariableTypeAnnotations,
    input_value_type_annotations: &VariableValueAnnotations,
) -> (r: Result<(Vec<AnnotatedStage>, AnnotatedFetch), AnnotationError>)
    requires
        object_wf(fetch, *variable_registry, *parameters, *input_type_annotations, *snapshot),
        snapshot_schema_wf(*snapshot),
    ensures
        r is Ok <==> object_ok(
            fetch,
            *input_type_annotations,
            *schema_function_annotations,
            annotated_preamble,
            *snapshot,
        ),
        r matches Ok(p) ==> stages_annotated(stages@, p.0@, *input_type_annotations)
            && object_annotated(fetch, p.1.object, *input_type_annotations, *snapshot),
        r matches Err(e) ==> object_error_matches(
            fetch,
            e,
            *variable_registry,
            *parameters,
            *input_type_annotations,
            *schema_function_annotations,
            annotated_preamble,
            *snapshot,
        ),
    decreases object_height(fetch), 1int,
{
    let ghost all_stages = stages@;
    let mut annotated_stages: Vec<AnnotatedStage> = Vec::new();
    let mut remaining = stages;
    let total = remaining.len();
    proof {
        assert(remaining@.skip(0) =~= all_stages);
    }
    let mut taken: usize = 0;
    while remaining.len() > 0
        invariant
            taken + remaining@.len() == total,
            total == all_stages.len(),
            remaining@ == all_stages.skip(taken as int),
            annotated_stages@.len() == taken,
            forall|j: int|
                0 <= j < taken ==> stage_annotated(
                    all_stages[j],
                    #[trigger] annotated_stages@[j],
                    *input_type_annotations,
                ),
        decreases remaining@.len(),
    {
        let ghost before = remaining@;
        let stage = remaining.remove(0);
        proof {
            assert(before[0] == all_stages.skip(taken as int).first());
            assert(all_stages.skip(taken as int).first() == all_stages[taken as int]);
            assert(remaining@ =~= before.drop_first());
            assert(all_stages.skip(taken as int).drop_first() =~= all_stages.skip(taken + 1));
            assert(stage == all_stages[taken as int]);
        }
        let annotated = annotate_match_stage(stage, input_type_annotations);
        annotated_stages.push(annotated);
        taken = taken + 1;
    }
    let object = match annotate_object(
        fetch,
        snapshot,
        type_manager,
        variable_registry,
        parameters,
        schema_function_annotations,
        annotated_preamble,
        input_type_annotations,
        input_value_type_annotations,
    ) {
        Ok(object) => object,
        Err(err) => {
            return Err(err);
        },
    };
    Ok((annotated_stages, AnnotatedFetch { object }))
}

/// Annotates a nested sub-query: re-enters the pipeline annotator with the
/// sub-query's own translation context, the enclosing query's input
/// annotations propagated in. The sub-query's registries are owned by the
/// result, not shared with the enclosing query.
pub fn annotate_sub_fetch(
    snapshot: &Snapshot,
    type_manager: &TypeManager,
    schema_function_annotations: &IndexedAnnotatedFunctions,
    annotated_preamble: Option<&AnnotatedUnindexedFunctions>,
    sub_fetch: FetchListSubFetch,
    input_type_annotations: &VariableTypeAnnotations,
    input_value_type_annotations: &VariableValueAnnotations,
) -> (r: Result<AnnotatedFetchListSubFetch, AnnotationError>)
    requires
        object_wf(
            sub_fetch.fetch,
            sub_fetch.context.variable_registry,
            sub_fetch.context.parameters,
            *input_type_annotations,
            *snapshot,
        ),
        snapshot_schema_wf(*snapshot),
    ensures
        r is Ok <==> object_ok(
            sub_fetch.fetch,
            *input_type_annotations,
            *schema_function_annotations,
            annotated_preamble,
            *snapshot,
        ),
        r matches Ok(asf) ==> asf.variable_registry == sub_fetch.context.variable_registry
            && asf.input_variables@ == sub_fetch.input_variables@ && stages_annotated(
            sub_fetch.stages@,
            asf.stages@,
            *input_type_annotations,
        ) && object_annotated(
            sub_fetch.fetch,
            asf.fetch.object,
            *input_type_annotations,
            *snapshot,
        ),
        r matches Err(e) ==> object_error_matches(
            sub_fetch.fetch,
            e,
            sub_fetch.context.variable_registry,
            sub_fetch.context.parameters,
            *input_type_annotations,
            *schema_function_annotations,
            annotated_preamble,
            *snapshot,
        ),
    decreases object_height(sub_fetch.fetch), 2int,
{
    let FetchListSubFetch { context, input_variables, stages, fetch } = sub_fetch;
    let TranslationContext { variable_registry, parameters } = context;
    let (annotated_stages, annotated_fetch) = match annotate_stages_and_fetch(
        snapshot,
        type_manager,
        schema_function_annotations,
        &variable_registry,
        &parameters,
        annotated_preamble,
        stages,
        fetch,
        input_type_annotations,
        input_value_type_annotations,
    ) {
        Ok(p) => p,
        Err(err) => {
            return Err(err);
        },
    };
    Ok(
        AnnotatedFetchListSubFetch {
            variable_registry,
            input_variables,
            stages: annotated_stages,
            fetch: annotated_fetch,
        },
    )
}

/// Annotates a whole fetch clause. Succeeds exactly when every projection
/// in the tree validates against the schema; the result mirrors the input's
/// shape with every leaf enriched.
pub fn annotate_fetch(
    fetch: FetchObject,
    snapshot: &Snapshot,
    type_manager: &TypeManager,
    variable_registry: &VariableRegistry,
    parameters: &ParameterRegistry,
    indexed_annotated_functions: &IndexedAnnotatedFunctions,
    local_functions: Option<&AnnotatedUnindexedFunctions>,
    input_type_annotations: &VariableTypeAnnotations,
    input_value_type_annotations: &VariableValueAnnotations,
) -> (r: Result<AnnotatedFetch, AnnotationError>)
    requires
        object_wf(fetch, *variable_registry, *parameters, *input_type_annotations, *snapshot),
        snapshot_schema_wf(*snapshot),
    ensures
        r is Ok <==> object_ok(
            fetch,
            *input_type_annotations,
            *indexed_annotated_functions,
            local_functions,
            *snapshot,
        ),
        r matches Ok(af) ==> object_annotated(fetch, af.object, *input_type_annotations, *snapshot),
        r matches Err(e) ==> object_error_matches(
            fetch,
            e,
            *variable_registry,
            *parameters,
            *input_type_annotations,
            *indexed_annotated_functions,
            local_functions,
            *snapshot,
        ),
    decreases object_height(fetch), 3int,
{
    let object = match annotate_object(
        fetch,
        snapshot,
        type_manager,
        variable_registry,
        parameters,
        indexed_annotated_functions,
        local_functions,
        input_type_annotations,
        input_value_type_annotations,
    ) {
        Ok(object) => object,
        Err(err) => {
            return Err(err);
        },
    };
    Ok(AnnotatedFetch { object })
}

// ---------------------------------------------------------------------
// Structural isomorphism of annotation output
// ---------------------------------------------------------------------

/// Whether an annotated projection has exactly its input's variant, with
/// nested objects isomorphic in turn.
pub open spec fn some_shape_iso(input: FetchSome, out: AnnotatedFetchSome) -> bool
    decreases input,
{
    match input {
        FetchSome::SingleVar(_) => out is SingleVar,
        FetchSome::SingleAttribute(_) => out is SingleAttribute,
        FetchSome::SingleFunction(_) => out is SingleFunction,
        FetchSome::Object(b) => out matches AnnotatedFetchSome::Object(ob) && object_shape_iso(
            *b,
            *ob,
        ),
        FetchSome::ListFunction(_) => out is ListFunction,
        FetchSome::ListSubFetch(sf) => out matches AnnotatedFetchSome::ListSubFetch(asf)
            && object_shape_iso(sf.fetch, asf.fetch.object),
        FetchSome::ListAttributesAsList(_) => out is ListAttributesAsList,
        FetchSome::ListAttributesFromList(_) => out is ListAttributesFromList,
    }
}

/// Whether an annotated fetch object mirrors its input: the same variant,
/// the same keys in the same order, and entry values isomorphic pairwise.
pub open spec fn object_shape_iso(input: FetchObject, out: AnnotatedFetchObject) -> bool
    decreases input,
{
    match input {
        FetchObject::Entries(es) => out matches AnnotatedFetchObject::Entries(aes) && aes@.len()
            == es@.len() && (forall|i: int|
            0 <= i < es@.len() ==> (#[trigger] aes@[i]).0 == (#[trigger] es@[i]).0
                && some_shape_iso(es@[i].1, aes@[i].1)),
        FetchObject::Attributes(_) => out is Attributes,
    }
}

/// Law: whenever annotation of a projection succeeds, its output is
/// structurally isomorphic to the input -- the same variant shape at the
/// same nesting depth.
pub proof fn lemma_some_annotation_isomorphic(
    input: FetchSome,
    out: AnnotatedFetchSome,
    annos: VariableTypeAnnotations,
    snap: Snapshot,
)
    requires
        some_annotated(input, out, annos, snap),
    ensures
        some_shape_iso(input, out),
    decreases input,
{
    match input {
        FetchSome::Object(b) => {
            if let AnnotatedFetchSome::Object(ob) = out {
                lemma_object_annotation_isomorphic(*b, *ob, annos, snap);
            }
        },
        FetchSome::ListSubFetch(sf) => {
            if let AnnotatedFetchSome::ListSubFetch(asf) = out {
                lemma_object_annotation_isomorphic(sf.fetch, asf.fetch.object, annos, snap);
            }
        },
        _ => {},
    }
}

/// Law: whenever annotation of a fetch object succeeds, its output is
/// structurally isomorphic to the input, entry by entry.
pub proof fn lemma_object_annotation_isomorphic(
    input: FetchObject,
    out: AnnotatedFetchObject,
    annos: VariableTypeAnnotations,
    snap: Snapshot,
)
    requires
        object_annotated(input, out, annos, snap),
    ensures
        object_shape_iso(input, out),
    decreases input,
{
    match input {
        FetchObject::Entries(es) => {
            if let AnnotatedFetchObject::Entries(aes) = out {
                assert forall|i: int| 0 <= i < es@.len() implies (#[trigger] aes@[i]).0 == (
                #[trigger] es@[i]).0 && some_shape_iso(es@[i].1, aes@[i].1) by {
                    lemma_some_annotation_isomorphic(es@[i].1, aes@[i].1, annos, snap);
                }
            }
        },
        FetchObject::Attributes(_) => {},
    }
}

} // verus!
