//! The fetch clause's schema-agnostic representation: what structured result
//! shape a query projects, before any schema validation.
//!
//! `FetchObject` and `FetchSome` are mutually recursive: an object maps fetch
//! keys to nested projections, and a projection may itself hold an object or
//! a whole sub-query. Recursive cases are heap-indirected so the tree may
//! nest arbitrarily deep. Also here: the registries that resolve variables
//! and fetch keys back to names, and the per-variable input annotations the
//! annotation pass consumes.

use vstd::prelude::*;
use crate::function_signature::FunctionID;
use crate::pattern::Disjunction;
use crate::schema::Type;
use crate::variable::{ParameterID, Variable};

verus! {

/// Maps each named variable to its source-level name, for diagnostics.
pub struct VariableRegistry {
    pub names: Vec<(Variable, String)>,
}

/// The name recorded for `v`, if any.
pub open spec fn variable_name_of(names: Seq<(Variable, String)>, v: Variable) -> Option<Seq<char>>
    decreases names.len(),
{
    if names.len() == 0 {
        None
    } else if names.first().0 == v {
        Some(names.first().1@)
    } else {
        variable_name_of(names.drop_first(), v)
    }
}

impl VariableRegistry {
    pub fn get_variable_name(&self, variable: Variable) -> (r: Option<&String>)
        ensures
            r is Some <==> variable_name_of(self.names@, variable) is Some,
            r matches Some(name) ==> variable_name_of(self.names@, variable) == Some(name@),
    {
        let n = self.names.len();
        let mut i: usize = 0;
        proof {
            assert(self.names@.skip(0) =~= self.names@);
        }
        while i < n
            invariant
                i <= n,
                n == self.names@.len(),
                variable_name_of(self.names@, variable) == variable_name_of(
                    self.names@.skip(i as int),
                    variable,
                ),
            decreases n - i,
        {
            proof {
                assert(self.names@.skip(i as int).first() == self.names@[i as int]);
                assert(self.names@.skip(i as int).drop_first() =~= self.names@.skip(i + 1));
            }
            let entry = &self.names[i];
            if entry.0 == variable {
                return Some(&entry.1);
            }
            i = i + 1;
        }
        proof {
            assert(self.names@.skip(n as int) =~= Seq::<(Variable, String)>::empty());
        }
        None
    }
}

/// The parameter table: maps a parameter id back to the literal fetch key it
/// stands for. Append-only at build time, read-only afterwards.
pub struct ParameterRegistry {
    pub fetch_keys: Vec<(ParameterID, String)>,
}

/// The fetch key recorded for `id`, if any.
pub open spec fn fetch_key_of(keys: Seq<(ParameterID, String)>, id: ParameterID) -> Option<
    Seq<char>,
>
    decreases keys.len(),
{
    if keys.len() == 0 {
        None
    } else if keys.first().0 == id {
        Some(keys.first().1@)
    } else {
        fetch_key_of(keys.drop_first(), id)
    }
}

impl ParameterRegistry {
    pub fn fetch_key(&self, key: ParameterID) -> (r: Option<&String>)
        ensures
            r is Some <==> fetch_key_of(self.fetch_keys@, key) is Some,
            r matches Some(name) ==> fetch_key_of(self.fetch_keys@, key) == Some(name@),
    {
        let n = self.fetch_keys.len();
        let mut i: usize = 0;
        proof {
            assert(self.fetch_keys@.skip(0) =~= self.fetch_keys@);
        }
        while i < n
            invariant
                i <= n,
                n == self.fetch_keys@.len(),
                fetch_key_of(self.fetch_keys@, key) == fetch_key_of(
                    self.fetch_keys@.skip(i as int),
                    key,
                ),
            decreases n - i,
        {
            proof {
                assert(self.fetch_keys@.skip(i as int).first() == self.fetch_keys@[i as int]);
                assert(self.fetch_keys@.skip(i as int).drop_first() =~= self.fetch_keys@.skip(
                    i + 1,
                ));
            }
            let entry = &self.fetch_keys[i];
            if entry.0 == key {
                return Some(&entry.1);
            }
            i = i + 1;
        }
        proof {
            assert(self.fetch_keys@.skip(n as int) =~= Seq::<(ParameterID, String)>::empty());
        }
        None
    }
}

/// The translation context a sub-query carries: its own variable registry
/// and parameter table, not shared with the enclosing query.
pub struct TranslationContext {
    pub variable_registry: VariableRegistry,
    pub parameters: ParameterRegistry,
}

/// The category of a value-typed expression result.
#[derive(Clone, Copy, PartialEq, Eq, Structural, Debug)]
pub enum ValueTypeCategory {
    Boolean,
    Integer,
    Text,
    DateTime,
}

/// The value type inferred for an expression variable: a single value or a
/// list of values of one category.
#[derive(Clone, Copy, PartialEq, Eq, Structural, Debug)]
pub enum ExpressionValueType {
    Single(ValueTypeCategory),
    List(ValueTypeCategory),
}

/// The candidate-type map computed by upstream pattern inference: for each
/// variable, the set of concrete types it may resolve to at runtime.
pub struct VariableTypeAnnotations {
    pub entries: Vec<(Variable, Vec<Type>)>,
}

/// The candidate types recorded for `v`, if any.
pub open spec fn annotations_of(entries: Seq<(Variable, Vec<Type>)>, v: Variable) -> Option<
    Seq<Type>,
>
    decreases entries.len(),
{
    if entries.len() == 0 {
        None
    } else if entries.first().0 == v {
        Some(entries.first().1@)
    } else {
        annotations_of(entries.drop_first(), v)
    }
}

impl VariableTypeAnnotations {
    pub fn get(&self, variable: Variable) -> (r: Option<&Vec<Type>>)
        ensures
            r is Some <==> annotations_of(self.entries@, variable) is Some,
            r matches Some(types) ==> annotations_of(self.entries@, variable) == Some(types@),
    {
        let n = self.entries.len();
        let mut i: usize = 0;
        proof {
            assert(self.entries@.skip(0) =~= self.entries@);
        }
        while i < n
            invariant
                i <= n,
                n == self.entries@.len(),
                annotations_of(self.entries@, variable) == annotations_of(
                    self.entries@.skip(i as int),
                    variable,
                ),
            decreases n - i,
        {
            proof {
                assert(self.entries@.skip(i as int).first() == self.entries@[i as int]);
                assert(self.entries@.skip(i as int).drop_first() =~= self.entries@.skip(i + 1));
            }
            let entry = &self.entries[i];
            if entry.0 == variable {
                return Some(&entry.1);
            }
            i = i + 1;
        }
        proof {
            assert(self.entries@.skip(n as int) =~= Seq::<(Variable, Vec<Type>)>::empty());
        }
        None
    }
}

/// The value types computed for expression variables, carried into nested
/// function and sub-query annotation as input context.
pub struct VariableValueAnnotations {
    pub entries: Vec<(Variable, ExpressionValueType)>,
}

/// An anonymous function written inline in a fetch clause: its argument
/// variables and the functions its body calls.
pub struct AnonymousFunction {
    pub arguments: Vec<Variable>,
    pub calls: Vec<FunctionID>,
}

/// A single-attribute projection: `variable.attribute`, promising at most
/// one value.
pub struct FetchSingleAttribute {
    pub variable: Variable,
    pub attribute: String,
}

/// A list-attribute projection: all values of `attribute` on `variable`.
pub struct FetchListAttributeAsList {
    pub variable: Variable,
    pub attribute: String,
}

/// A list-attribute projection taken from a list-valued variable.
pub struct FetchListAttributeFromList {
    pub variable: Variable,
    pub attribute: String,
}

/// One pipeline stage of a sub-query, before annotation.
pub enum Stage {
    Match(Disjunction),
}

/// A nested sub-query projected as a list: it carries its own translation
/// context, the variables it takes from the enclosing query, its stages and
/// its own fetch clause.
pub struct FetchListSubFetch {
    pub context: TranslationContext,
    pub input_variables: Vec<Variable>,
    pub stages: Vec<Stage>,
    pub fetch: FetchObject,
}

/// One projected value inside a fetch object.
pub enum FetchSome {
    SingleVar(Variable),
    SingleAttribute(FetchSingleAttribute),
    SingleFunction(AnonymousFunction),
    Object(Box<FetchObject>),
    ListFunction(AnonymousFunction),
    ListSubFetch(FetchListSubFetch),
    ListAttributesAsList(FetchListAttributeAsList),
    ListAttributesFromList(FetchListAttributeFromList),
}

/// A fetch object: either an ordered mapping from fetch keys to nested
/// projections, or all attributes of one variable.
pub enum FetchObject {
    Entries(Vec<(ParameterID, FetchSome)>),
    Attributes(Variable),
}

} // verus!
