//! Builder for [`LshIndex`].

use vstd::prelude::*;

use super::index::LshIndex;
use crate::error::{Error, Result};

verus! {

/// Band/row partition of an LSH index over `H = bands * rows` slots.
#[derive(Copy, Clone, Debug)]
pub struct LshIndexBuilder {
    /// Number of bands.
    pub bands: usize,
    /// Rows (slots) per band.
    pub rows: usize,
}

impl LshIndexBuilder {
    /// A builder with the given partition.
    pub fn new(bands: usize, rows: usize) -> (b: Self)
        ensures
            b.bands == bands,
            b.rows == rows,
    {
        LshIndexBuilder { bands, rows }
    }

    /// Build the index; the partition must cover exactly `H` slots.
    pub fn build<const H: usize>(self) -> (idx: LshIndex<H>)
        requires
            self.bands > 0,
            self.rows > 0,
            self.bands * self.rows == H,
        ensures
            idx.wf(),
            idx@ == Map::<u64, super::super::minhash::MinHashSig<H>>::empty(),
            idx.spec_bands() == self.bands,
            idx.spec_rows() == self.rows,
    {
        match LshIndex::with_bands_rows(self.bands, self.rows) {
            Ok(idx) => idx,
            Err(_) => {
                assert(false);
                LshIndex::with_bands_rows(self.bands, self.rows).unwrap()
            },
        }
    }

    /// Build the index, refusing a partition that does not cover exactly
    /// `H` slots (see [`LshIndex::with_bands_rows`]).
    pub fn try_build<const H: usize>(self) -> (r: Result<LshIndex<H>>)
        ensures
            r is Ok <==> self.bands > 0 && self.rows > 0 && self.bands * self.rows == H,
            r matches Ok(idx) ==> idx.wf() && idx@ == Map::<
                u64,
                super::super::minhash::MinHashSig<H>,
            >::empty() && idx.spec_bands() == self.bands && idx.spec_rows() == self.rows,
            r matches Err(e) ==> e is Config && e->Config_0@ == super::index::partition_error(
                self.bands as nat,
                self.rows as nat,
                H as nat,
            ),
    {
        LshIndex::with_bands_rows(self.bands, self.rows)
    }
}

} // verus!
