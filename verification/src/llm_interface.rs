//! Functions offered to a language model.

use vstd::prelude::*;

verus! {

/// The function that processes a GitHub repository or organization.
pub struct ProcessGitHubFunction;

} // verus!
