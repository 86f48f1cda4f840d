//! Word-level `k`-shingles over an inner tokenizer.

use vstd::prelude::*;

use super::{TokenStream, Tokenizer};
use crate::text::{decimal, decimal_string, push_str, views};

verus! {

/// The strings of `ts` joined by single ASCII spaces.
pub open spec fn join_space(ts: Seq<Seq<char>>) -> Seq<char>
    decreases ts.len(),
{
    if ts.len() == 0 {
        Seq::empty()
    } else if ts.len() == 1 {
        ts[0]
    } else {
        join_space(ts.drop_last()) + " "@ + ts.last()
    }
}

/// The `k`-shingles of a token sequence: every window of `k` consecutive
/// tokens joined by a space; a sequence shorter than `k` (but not empty)
/// gives one shingle of all its tokens; `k == 0` gives none.
pub open spec fn shingles(toks: Seq<Seq<char>>, k: nat) -> Seq<Seq<char>> {
    if k == 0 || toks.len() == 0 {
        Seq::empty()
    } else if toks.len() < k {
        seq![join_space(toks)]
    } else {
        Seq::new((toks.len() - k + 1) as nat, |i: int| join_space(toks.subrange(i, i + k)))
    }
}

/// Join `toks[lo..hi]` with single spaces.
pub(crate) fn join_range(toks: &Vec<String>, lo: usize, hi: usize) -> (s: String)
    requires
        lo <= hi <= toks@.len(),
    ensures
        s@ == join_space(views(toks@).subrange(lo as int, hi as int)),
{
    let ghost v = views(toks@);
    let mut s = String::new();
    let mut j = lo;
    while j < hi
        invariant
            lo <= j <= hi <= toks@.len(),
            v == views(toks@),
            s@ == join_space(v.subrange(lo as int, j as int)),
        decreases hi - j,
    {
        assert(v.subrange(lo as int, j + 1).drop_last() == v.subrange(lo as int, j as int));
        if j > lo {
            push_str(&mut s, " ");
        } else {
            assert(v.subrange(lo as int, j as int).len() == 0);
        }
        push_str(&mut s, toks[j].as_str());
        j = j + 1;
        assert(s@ =~= join_space(v.subrange(lo as int, j as int)));
    }
    s
}

/// Word shingles: windows of `k` consecutive inner tokens joined by one
/// ASCII space.
#[derive(Clone, Debug)]
pub struct ShingleTokenizer<T: Tokenizer> {
    /// Shingle width (tokens per shingle).
    pub k: usize,
    /// Underlying tokenizer.
    pub inner: T,
}

impl<T: Tokenizer> Tokenizer for ShingleTokenizer<T> {
    open spec fn spec_tokens(&self, input: Seq<char>) -> Seq<Seq<char>> {
        shingles(self.inner.spec_tokens(input), self.k as nat)
    }

    open spec fn spec_name(&self) -> Seq<char> {
        "shingle-k="@ + decimal(self.k as nat) + "/"@ + self.inner.spec_name()
    }

    fn tokens(&self, input: &str) -> (t: TokenStream) {
        let k = self.k;
        let toks = self.inner.tokens(input).into_string_iter();
        let ghost v = views(toks@);
        let mut out: Vec<String> = Vec::new();
        if k == 0 || toks.len() == 0 {
            assert(views(out@) =~= shingles(v, k as nat));
            return TokenStream::from_strings(out);
        }
        if toks.len() < k {
            let joined = join_range(&toks, 0, toks.len());
            assert(v.subrange(0, v.len() as int) == v);
            out.push(joined);
            assert(views(out@) =~= shingles(v, k as nat));
            return TokenStream::from_strings(out);
        }
        let len = toks.len();
        let n = len - k + 1;
        let mut i: usize = 0;
        while i < n
            invariant
                len == toks@.len(),
                n == len - k + 1,
                0 < k <= toks@.len(),
                i <= n,
                v == views(toks@),
                views(out@) == shingles(v, k as nat).take(i as int),
            decreases n - i,
        {
            assert(i + k <= toks@.len());
            let sh = join_range(&toks, i, i + k);
            let ghost before = views(out@);
            out.push(sh);
            assert(views(out@) == before.push(sh@));
            i = i + 1;
            assert(views(out@) =~= shingles(v, k as nat).take(i as int));
        }
        assert(views(out@) =~= shingles(v, k as nat));
        TokenStream::from_strings(out)
    }

    fn name(&self) -> (n: String) {
        let mut n = String::new();
        push_str(&mut n, "shingle-k=");
        let d = decimal_string(self.k as u64);
        push_str(&mut n, d.as_str());
        push_str(&mut n, "/");
        let inner = self.inner.name();
        push_str(&mut n, inner.as_str());
        n
    }
}

} // verus!
