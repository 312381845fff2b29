//! The generic circuit compiler's configuration: an ordered list of
//! preferred backends to compile against.

use vstd::prelude::*;

verus! {

/// A compiler configuration targeting the first available preferred
/// backend.
pub struct GenericCircuitCompiler {
    pub backend_preferences: Vec<String>,
}

impl GenericCircuitCompiler {
    /// The default preference order.
    pub fn new() -> (r: GenericCircuitCompiler)
        ensures
            r.backend_preferences@.len() == 3,
    {
        let mut backend_preferences: Vec<String> = Vec::new();
        backend_preferences.push("bulletproofs".to_string());
        backend_preferences.push("groth16".to_string());
        backend_preferences.push("plonk".to_string());
        GenericCircuitCompiler { backend_preferences }
    }

    /// A compiler with a caller-chosen preference order.
    pub fn with_backend_preferences(preferences: Vec<String>) -> (r: GenericCircuitCompiler)
        ensures
            r.backend_preferences == preferences,
    {
        GenericCircuitCompiler { backend_preferences: preferences }
    }
}

} // verus!
