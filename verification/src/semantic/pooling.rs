//! Pooling strategies for token embeddings.

use vstd::prelude::*;

verus! {

/// How per-token hidden states become one vector.
#[derive(Copy, Clone, Debug, PartialEq, Eq, Hash, Structural)]
pub enum Pooling {
    /// The first (`[CLS]`) token, L2-normalized.
    Cls,
    /// Mean over kept tokens, L2-normalized.
    Mean,
    /// Mean over kept tokens, not normalized.
    MeanNoNorm,
    /// Element-wise maximum over kept tokens, L2-normalized.
    Max,
}

impl Pooling {
    /// Whether the pooled vector is L2-normalized: all but `MeanNoNorm`.
    pub fn normalizes(self) -> (b: bool)
        ensures
            b == !(self is MeanNoNorm),
    {
        match self {
            Pooling::Cls | Pooling::Mean | Pooling::Max => true,
            Pooling::MeanNoNorm => false,
        }
    }
}

/// Whether token `idx` takes part in pooling: always without a mask;
/// with one, when its entry exists and is non-zero.
pub fn mask_says_keep(mask: Option<&[i64]>, idx: usize) -> (b: bool)
    ensures
        b == match mask {
            None => true,
            Some(m) => idx < m@.len() && m@[idx as int] != 0,
        },
{
    match mask {
        None => true,
        Some(m) => idx < m.len() && m[idx] != 0,
    }
}

} // verus!
