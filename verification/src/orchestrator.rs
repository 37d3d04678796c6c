//! The results of processing a repository end to end.

use vstd::prelude::*;

verus! {

/// Concepts, patterns and suggestions found in a repository.
pub struct SemanticInsights {
    /// The key concepts of the repository
    pub key_concepts: Vec<String>,
    /// The architecture patterns it follows
    pub architecture_patterns: Vec<String>,
    /// What could be improved
    pub improvement_suggestions: Vec<String>,
}

} // verus!
