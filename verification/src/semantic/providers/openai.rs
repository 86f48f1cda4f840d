//! OpenAI model table.

use vstd::prelude::*;

use crate::text::str_eq;

verus! {

/// The embedding width of an OpenAI model; 1536 for unknown models.
pub open spec fn spec_dimension_for(model: Seq<char>) -> usize {
    if model == "text-embedding-3-small"@ {
        1536
    } else if model == "text-embedding-3-large"@ {
        3072
    } else if model == "text-embedding-ada-002"@ {
        1536
    } else {
        1536
    }
}

/// The embedding width of an OpenAI model.
pub fn dimension_for(model: &str) -> (d: usize)
    ensures
        d == spec_dimension_for(model@),
{
    if str_eq(model, "text-embedding-3-small") {
        1536
    } else if str_eq(model, "text-embedding-3-large") {
        3072
    } else if str_eq(model, "text-embedding-ada-002") {
        1536
    } else {
        1536
    }
}

} // verus!
