//! Small verified string utilities shared by the rest of the crate.

use vstd::prelude::*;

verus! {

/// Append `c` to `s` (`String::push`).
#[verifier::external_body]
pub(crate) fn push_char(s: &mut String, c: char)
    ensures
        final(s)@ == old(s)@.push(c),
{
    s.push(c)
}

/// Empty `s`, keeping its allocation (`String::clear`).
#[verifier::external_body]
pub(crate) fn clear_string(s: &mut String)
    ensures
        final(s)@ == Seq::<char>::empty(),
{
    s.clear()
}

/// Append `t` to `s`.
pub fn push_str(s: &mut String, t: &str)
    ensures
        final(s)@ == old(s)@ + t@,
{
    s.append(t);
}

/// The characters of `s`, in order.
pub fn chars_of(s: &str) -> (out: Vec<char>)
    ensures
        out@ == s@,
{
    broadcast use vstd::string::group_string_axioms;

    let mut out: Vec<char> = Vec::new();
    for c in it: s.chars()
        invariant
            out@ == it.seq().take(it.index() as int),
            it.seq() == s@,
    {
        out.push(c);
    }
    out
}

/// `c` has the Unicode `White_Space` property (what `char::is_whitespace`
/// tests, and what `str::trim` removes).
pub open spec fn spec_is_whitespace(c: char) -> bool {
    let u = c as u32;
    ||| 0x09 <= u <= 0x0D
    ||| u == 0x20
    ||| u == 0x85
    ||| u == 0xA0
    ||| u == 0x1680
    ||| 0x2000 <= u <= 0x200A
    ||| u == 0x2028
    ||| u == 0x2029
    ||| u == 0x202F
    ||| u == 0x205F
    ||| u == 0x3000
}

/// `char::is_whitespace`.
pub fn is_whitespace(c: char) -> (b: bool)
    ensures
        b == spec_is_whitespace(c),
{
    let u = c as u32;
    (0x09 <= u && u <= 0x0D) || u == 0x20 || u == 0x85 || u == 0xA0 || u == 0x1680 || (0x2000 <= u
        && u <= 0x200A) || u == 0x2028 || u == 0x2029 || u == 0x202F || u == 0x205F || u == 0x3000
}

/// `cs` without its leading whitespace.
pub open spec fn trim_start(cs: Seq<char>) -> Seq<char>
    decreases cs.len(),
{
    if cs.len() > 0 && spec_is_whitespace(cs[0]) {
        trim_start(cs.drop_first())
    } else {
        cs
    }
}

/// `cs` without its trailing whitespace.
pub open spec fn trim_end(cs: Seq<char>) -> Seq<char>
    decreases cs.len(),
{
    if cs.len() > 0 && spec_is_whitespace(cs.last()) {
        trim_end(cs.drop_last())
    } else {
        cs
    }
}

/// `cs` without leading and trailing whitespace (`str::trim`).
pub open spec fn trim(cs: Seq<char>) -> Seq<char> {
    trim_start(trim_end(cs))
}

/// `trim_start` drops a prefix of `cs`, after which `cs` is empty or starts
/// with a non-whitespace character.
proof fn lemma_trim_start_suffix(cs: Seq<char>)
    ensures
        trim_start(cs).len() <= cs.len(),
        trim_start(cs) == cs.subrange(cs.len() - trim_start(cs).len(), cs.len() as int),
        trim_start(cs).len() > 0 ==> !spec_is_whitespace(trim_start(cs)[0]),
    decreases cs.len(),
{
    if cs.len() > 0 && spec_is_whitespace(cs[0]) {
        lemma_trim_start_suffix(cs.drop_first());
        let t = trim_start(cs.drop_first());
        assert(cs.drop_first().subrange(cs.len() - 1 - t.len(), cs.len() - 1) == cs.subrange(
            cs.len() - t.len(),
            cs.len() as int,
        ));
    } else {
        assert(cs.subrange(0, cs.len() as int) == cs);
    }
}

/// `trim_end` keeps a prefix of `cs`, after which `cs` is empty or ends with
/// a non-whitespace character.
proof fn lemma_trim_end_prefix(cs: Seq<char>)
    ensures
        trim_end(cs).len() <= cs.len(),
        trim_end(cs) == cs.take(trim_end(cs).len() as int),
        trim_end(cs).len() > 0 ==> !spec_is_whitespace(trim_end(cs).last()),
    decreases cs.len(),
{
    if cs.len() > 0 && spec_is_whitespace(cs.last()) {
        lemma_trim_end_prefix(cs.drop_last());
        let t = trim_end(cs.drop_last());
        assert(cs.drop_last().take(t.len() as int) == cs.take(t.len() as int));
    } else {
        assert(cs.take(cs.len() as int) == cs);
    }
}

/// Trimming twice is trimming once: what `str::trim` returns neither starts
/// nor ends with whitespace.
pub proof fn lemma_trim_idempotent(cs: Seq<char>)
    ensures
        trim(trim(cs)) == trim(cs),
        trim(cs).len() > 0 ==> !spec_is_whitespace(trim(cs)[0]) && !spec_is_whitespace(
            trim(cs).last(),
        ),
{
    let y = trim_end(cs);
    lemma_trim_end_prefix(cs);
    let z = trim_start(y);
    lemma_trim_start_suffix(y);
    if z.len() > 0 {
        assert(z.last() == y.last());
    }
    assert(trim_end(z) == z);
    assert(trim_start(z) == z);
}

/// `str::trim`, as an owned string.
pub fn trim_string(s: &str) -> (t: String)
    ensures
        t@ == trim(s@),
{
    let cs = chars_of(s);
    let mut hi = cs.len();
    assert(cs@.take(hi as int) == cs@);
    while hi > 0 && is_whitespace(cs[hi - 1])
        invariant
            hi <= cs@.len(),
            cs@ == s@,
            trim_end(cs@.take(hi as int)) == trim_end(s@),
        decreases hi,
    {
        assert(cs@.take(hi as int).drop_last() == cs@.take(hi - 1));
        hi = hi - 1;
    }
    let ghost e = cs@.take(hi as int);
    assert(trim_end(e) == e);
    let mut lo: usize = 0;
    assert(e.subrange(0, hi as int) == e);
    while lo < hi && is_whitespace(cs[lo])
        invariant
            lo <= hi <= cs@.len(),
            e == cs@.take(hi as int),
            trim_start(e.subrange(lo as int, hi as int)) == trim_start(e),
        decreases hi - lo,
    {
        assert(e.subrange(lo as int, hi as int).drop_first() == e.subrange(lo + 1, hi as int));
        lo = lo + 1;
    }
    assert(trim_start(e.subrange(lo as int, hi as int)) == e.subrange(lo as int, hi as int));
    let mut t = String::new();
    let mut i = lo;
    while i < hi
        invariant
            lo <= i <= hi <= cs@.len(),
            t@ == cs@.subrange(lo as int, i as int),
        decreases hi - i,
    {
        push_char(&mut t, cs[i]);
        i = i + 1;
        assert(t@ =~= cs@.subrange(lo as int, i as int));
    }
    assert(t@ =~= e.subrange(lo as int, hi as int));
    t
}

/// Whether `a` and `b` hold the same characters.
pub fn str_eq(a: &str, b: &str) -> (r: bool)
    ensures
        r == (a@ == b@),
{
    let x = chars_of(a);
    let y = chars_of(b);
    if x.len() != y.len() {
        return false;
    }
    let mut i: usize = 0;
    while i < x.len()
        invariant
            i <= x@.len(),
            x@.len() == y@.len(),
            x@ == a@,
            y@ == b@,
            forall|j: int| 0 <= j < i ==> x@[j] == y@[j],
        decreases x@.len() - i,
    {
        if x[i] != y[i] {
            return false;
        }
        i = i + 1;
    }
    assert(x@ =~= y@);
    true
}

/// The character sequences of a sequence of strings.
pub open spec fn views(v: Seq<String>) -> Seq<Seq<char>> {
    v.map_values(|s: String| s@)
}

/// The decimal digit character for `d < 10`.
pub open spec fn digit_char(d: nat) -> char {
    (48 + d) as char
}

/// Decimal rendering of `n`, without sign or leading zeros.
pub open spec fn decimal(n: nat) -> Seq<char>
    decreases n,
{
    if n < 10 {
        seq![digit_char(n)]
    } else {
        decimal(n / 10).push(digit_char(n % 10))
    }
}

/// Render `n` in decimal.
pub fn decimal_string(n: u64) -> (s: String)
    ensures
        s@ == decimal(n as nat),
{
    // Digits from least to most significant.
    let mut digits: Vec<char> = Vec::new();
    let mut m = n;
    while m >= 10
        invariant
            decimal(n as nat) == decimal(m as nat) + digits@.reverse(),
        decreases m,
    {
        let c = ((48u8 + (m % 10) as u8) as char);
        let ghost old = digits@;
        digits.push(c);
        assert(decimal(m as nat) == decimal((m / 10) as nat).push(c));
        assert(digits@.reverse() =~= seq![c] + old.reverse());
        assert(decimal((m / 10) as nat).push(c) + old.reverse() =~= decimal((m / 10) as nat)
            + digits@.reverse());
        m = m / 10;
    }
    let c = ((48u8 + m as u8) as char);
    let ghost old = digits@;
    digits.push(c);
    assert(digits@.reverse() =~= seq![c] + old.reverse());
    let mut s = String::new();
    let mut i = digits.len();
    while i > 0
        invariant
            i <= digits@.len(),
            s@ == digits@.reverse().take((digits@.len() - i) as int),
        decreases i,
    {
        i = i - 1;
        let ghost old = s@;
        push_char(&mut s, digits[i]);
        assert(s@ =~= digits@.reverse().take((digits@.len() - i) as int));
    }
    assert(s@ =~= digits@.reverse());
    s
}

/// The string of the characters `cs`.
pub fn string_from_chars(cs: &Vec<char>) -> (s: String)
    ensures
        s@ == cs@,
{
    let mut s = String::new();
    let mut i: usize = 0;
    while i < cs.len()
        invariant
            i <= cs@.len(),
            s@ == cs@.take(i as int),
        decreases cs@.len() - i,
    {
        push_char(&mut s, cs[i]);
        i = i + 1;
        assert(s@ =~= cs@.take(i as int));
    }
    assert(s@ =~= cs@);
    s
}

} // verus!
