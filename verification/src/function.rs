//! Schema-stored functions: a stored definition is parsed once into its
//! surface form and kept beside its identifier.

use vstd::prelude::*;
use crate::function_signature::{DefinitionKey, FunctionIDAPI, ParsedFunction};

verus! {

/// A function definition as persisted in the schema: either its text parses
/// to a function, or it is rejected when loaded.
pub struct FunctionDefinition {
    pub parsed: Option<ParsedFunction>,
}

/// Failure to load a stored function.
#[derive(Clone, Copy, Debug)]
pub enum FunctionManagerError {
    /// The stored definition text does not parse.
    FunctionParse,
}

/// A loaded function: its identifier and its parsed surface form.
pub struct Function<FunctionIDType: FunctionIDAPI> {
    pub function_id: FunctionIDType,
    pub parsed: ParsedFunction,
}

/// A function persisted in the schema, identified by its definition key.
pub type SchemaFunction = Function<DefinitionKey>;

impl<FunctionIDType: FunctionIDAPI> Function<FunctionIDType> {
    pub fn function_id(&self) -> (r: FunctionIDType)
        ensures
            r == self.function_id,
    {
        self.function_id
    }

    /// The function's declared name.
    pub fn name(&self) -> (r: String)
        ensures
            r@ == self.parsed.signature.ident@,
    {
        self.parsed.signature.ident.clone()
    }

    /// Loads a stored definition under the given identifier. Succeeds
    /// exactly when the definition parses.
    pub fn build(function_id: FunctionIDType, definition: FunctionDefinition) -> (r: Result<
        Self,
        FunctionManagerError,
    >)
        ensures
            r is Ok <==> definition.parsed is Some,
            r matches Ok(f) ==> f.function_id == function_id && (definition.parsed matches Some(p)
                && f.parsed == p),
            r matches Err(e) ==> e is FunctionParse,
    {
        match definition.parsed {
            Some(parsed) => Ok(Function { function_id, parsed }),
            None => Err(FunctionManagerError::FunctionParse),
        }
    }
}

} // verus!
