//! Whether two embeddings may be compared: same model (when both name
//! one) and same dimension.

use vstd::prelude::*;

use crate::error::{Error, Result};
use crate::text::{push_str, str_eq};

verus! {

/// Check that two embeddings, described by their optional model ids and
/// dimensions, are comparable. Refused with `ModelMismatch` when both name
/// a model and the names differ; otherwise with `DimensionMismatch` when
/// the dimensions differ.
pub fn check_compatible(a_model: Option<&str>, a_dim: usize, b_model: Option<&str>, b_dim: usize) -> (r:
    Result<()>)
    ensures
        (a_model matches Some(am) && b_model matches Some(bm) && am@ != bm@) ==> (r matches Err(
            Error::ModelMismatch { a, b },
        ) && a@ == a_model->0@ && b@ == b_model->0@),
        !(a_model matches Some(am) && b_model matches Some(bm) && am@ != bm@) && a_dim != b_dim
            ==> r == Err::<(), Error>(Error::DimensionMismatch { a: a_dim, b: b_dim }),
        r is Ok <==> !(a_model matches Some(am) && b_model matches Some(bm) && am@ != bm@) && a_dim
            == b_dim,
{
    match (a_model, b_model) {
        (Some(am), Some(bm)) => {
            if !str_eq(am, bm) {
                let mut a = String::new();
                push_str(&mut a, am);
                let mut b = String::new();
                push_str(&mut b, bm);
                return Err(Error::ModelMismatch { a, b });
            }
        },
        _ => {},
    }
    if a_dim != b_dim {
        return Err(Error::DimensionMismatch { a: a_dim, b: b_dim });
    }
    Ok(())
}

} // verus!
