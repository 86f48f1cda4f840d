//! Voyage AI model table.

use vstd::prelude::*;

use crate::text::str_eq;

verus! {

/// The embedding width of a Voyage model; 1024 for unknown models.
pub open spec fn spec_dimension_for(model: Seq<char>) -> usize {
    if model == "voyage-3-lite"@ {
        512
    } else if model == "voyage-3"@ {
        1024
    } else if model == "voyage-large-2"@ {
        1536
    } else if model == "voyage-code-2"@ {
        1536
    } else {
        1024
    }
}

/// The embedding width of a Voyage model.
pub fn dimension_for(model: &str) -> (d: usize)
    ensures
        d == spec_dimension_for(model@),
{
    if str_eq(model, "voyage-3-lite") {
        512
    } else if str_eq(model, "voyage-3") {
        1024
    } else if str_eq(model, "voyage-large-2") {
        1536
    } else if str_eq(model, "voyage-code-2") {
        1536
    } else {
        1024
    }
}

} // verus!
