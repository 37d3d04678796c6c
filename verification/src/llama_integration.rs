//! The reply of the local text-generation endpoint.

use vstd::prelude::*;

verus! {

/// The text a generation request returned.
pub struct LlamaResponse {
    /// The generated text
    pub text: String,
}

} // verus!
