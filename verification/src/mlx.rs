//! What the analysis service reports about code.

use vstd::prelude::*;

verus! {

/// Concepts, patterns and suggestions found in code.
pub struct SemanticInsights {
    /// The key concepts of the code
    pub key_concepts: Vec<String>,
    /// The architecture patterns it follows
    pub architecture_patterns: Vec<String>,
    /// What could be improved
    pub improvement_suggestions: Vec<String>,
}

} // verus!
