//! Cohere model table.

use vstd::prelude::*;

use crate::text::str_eq;

verus! {

/// The embedding width of a Cohere model; 1024 for unknown models.
pub open spec fn spec_dimension_for(model: Seq<char>) -> usize {
    if model == "embed-english-v3.0"@ || model == "embed-multilingual-v3.0"@ {
        1024
    } else if model == "embed-english-light-v3.0"@ || model == "embed-multilingual-light-v3.0"@ {
        384
    } else {
        1024
    }
}

/// The embedding width of a Cohere model.
pub fn dimension_for(model: &str) -> (d: usize)
    ensures
        d == spec_dimension_for(model@),
{
    if str_eq(model, "embed-english-v3.0") || str_eq(model, "embed-multilingual-v3.0") {
        1024
    } else if str_eq(model, "embed-english-light-v3.0") || str_eq(
        model,
        "embed-multilingual-light-v3.0",
    ) {
        384
    } else {
        1024
    }
}

} // verus!
