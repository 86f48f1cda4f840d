//! HTML to text.

use vstd::prelude::*;

use crate::canonical::ascii_lower;
use super::render::{html_error_text, render_html, rendered_text_of};
use crate::error::{Error, Result};
use crate::text::{chars_of, push_char, push_str, string_from_chars};

verus! {

/// `s[i..]` starts with the lowercase ASCII `pat`, ignoring ASCII case.
pub open spec fn starts_with_ic(s: Seq<char>, i: int, pat: Seq<char>) -> bool {
    &&& 0 <= i
    &&& i + pat.len() <= s.len()
    &&& forall|k: int| 0 <= k < pat.len() ==> ascii_lower(#[trigger] s[i + k]) == pat[k]
}

/// Position `j` ends a tag name: end of input, whitespace, `/` or `>`.
pub open spec fn tag_name_end(s: Seq<char>, j: int) -> bool {
    j >= s.len() || s[j] == ' ' || s[j] == '\t' || s[j] == '\n' || s[j] == '\r' || s[j] == '/'
        || s[j] == '>'
}

/// `c` is one of the four whitespace characters allowed before `>`.
pub open spec fn is_tag_space(c: char) -> bool {
    c == ' ' || c == '\t' || c == '\n' || c == '\r'
}

/// The first position at or after `k` that is not tag whitespace.
pub open spec fn skip_tag_space(s: Seq<char>, k: int) -> int
    decreases s.len() - k,
{
    if 0 <= k < s.len() && is_tag_space(s[k]) {
        skip_tag_space(s, k + 1)
    } else {
        k
    }
}

/// The end (one past `>`) of the first closing tag `pat` at or after
/// `from`: the pattern, a tag-name end, optional whitespace, then `>`.
pub open spec fn find_close(s: Seq<char>, from: int, pat: Seq<char>) -> Option<int>
    decreases s.len() - from,
{
    if from < 0 || from >= s.len() || from + pat.len() > s.len() {
        None
    } else {
        let k = skip_tag_space(s, from + pat.len());
        if starts_with_ic(s, from, pat) && tag_name_end(s, from + pat.len()) && k < s.len() && s[k]
            == '>' {
            Some(k + 1)
        } else {
            find_close(s, from + 1, pat)
        }
    }
}

/// `<script`.
pub open spec fn open_script() -> Seq<char> {
    seq!['<', 's', 'c', 'r', 'i', 'p', 't']
}

/// `<style`.
pub open spec fn open_style() -> Seq<char> {
    seq!['<', 's', 't', 'y', 'l', 'e']
}

/// `</script`.
pub open spec fn close_script() -> Seq<char> {
    seq!['<', '/', 's', 'c', 'r', 'i', 'p', 't']
}

/// `</style`.
pub open spec fn close_style() -> Seq<char> {
    seq!['<', '/', 's', 't', 'y', 'l', 'e']
}

/// The block opened at `i`, as (opening pattern, closing pattern), if a
/// `<script` or `<style` tag name starts there.
pub open spec fn opener_at(s: Seq<char>, i: int) -> Option<(Seq<char>, Seq<char>)> {
    if starts_with_ic(s, i, open_script()) {
        if tag_name_end(s, i + 7) {
            Some((open_script(), close_script()))
        } else {
            None
        }
    } else if starts_with_ic(s, i, open_style()) && tag_name_end(s, i + 6) {
        Some((open_style(), close_style()))
    } else {
        None
    }
}

/// The closing tag search never ends before it started.
pub proof fn lemma_find_close_after(s: Seq<char>, from: int, pat: Seq<char>)
    requires
        pat.len() > 0,
    ensures
        find_close(s, from, pat) matches Some(e) ==> from < e <= s.len(),
    decreases s.len() - from,
{
    if !(from < 0 || from >= s.len() || from + pat.len() > s.len()) {
        lemma_skip_tag_space(s, from + pat.len());
        lemma_find_close_after(s, from + 1, pat);
    }
}

/// Skipping whitespace never moves backwards.
pub proof fn lemma_skip_tag_space(s: Seq<char>, k: int)
    ensures
        skip_tag_space(s, k) >= k,
    decreases s.len() - k,
{
    if 0 <= k < s.len() && is_tag_space(s[k]) {
        lemma_skip_tag_space(s, k + 1);
    }
}

/// The text from `region_start` on with every script and style block
/// (from its opening tag through its closing tag, or through the end of
/// input when unclosed) removed, scanning from `i`.
pub open spec fn stripped_from(s: Seq<char>, region_start: int, i: int) -> Seq<char>
    decreases s.len() - i,
{
    if i < 0 || i >= s.len() {
        if 0 <= region_start <= s.len() {
            s.subrange(region_start, s.len() as int)
        } else {
            Seq::empty()
        }
    } else {
        match opener_at(s, i) {
            None => stripped_from(s, region_start, i + 1),
            Some((open, close)) => {
                let head = s.subrange(region_start, i);
                match find_close(s, i + open.len(), close) {
                    Some(end) => {
                        proof {
                            lemma_find_close_after(s, i + open.len(), close);
                        }
                        head + stripped_from(s, end, end)
                    },
                    None => head,
                }
            },
        }
    }
}

/// `s` with its script and style blocks removed.
pub open spec fn without_script_and_style(s: Seq<char>) -> Seq<char> {
    stripped_from(s, 0, 0)
}

/// Whether `cs[i..]` starts with `pat`, ignoring ASCII case.
fn starts_with_ignore_case(cs: &Vec<char>, i: usize, pat: &Vec<char>) -> (b: bool)
    ensures
        b == starts_with_ic(cs@, i as int, pat@),
{
    if i > cs.len() || pat.len() > cs.len() - i {
        return false;
    }
    let mut k: usize = 0;
    while k < pat.len()
        invariant
            k <= pat@.len(),
            i + pat@.len() <= cs@.len(),
            i + pat.len() <= cs.len(),
            forall|m: int| 0 <= m < k ==> ascii_lower(#[trigger] cs@[i + m]) == pat@[m],
        decreases pat@.len() - k,
    {
        if crate::canonical::to_ascii_lower(cs[i + k]) != pat[k] {
            return false;
        }
        k = k + 1;
    }
    true
}

/// Whether position `j` ends a tag name.
fn is_tag_name_end(cs: &Vec<char>, j: usize) -> (b: bool)
    ensures
        b == tag_name_end(cs@, j as int),
{
    if j >= cs.len() {
        return true;
    }
    let c = cs[j];
    c == ' ' || c == '\t' || c == '\n' || c == '\r' || c == '/' || c == '>'
}

/// The end of the first closing tag `pat` at or after `from`.
fn find_close_tag(cs: &Vec<char>, from: usize, pat: &Vec<char>) -> (r: Option<usize>)
    requires
        pat@.len() > 0,
    ensures
        r matches Some(e) ==> find_close(cs@, from as int, pat@) == Some(e as int),
        r is None ==> find_close(cs@, from as int, pat@) is None,
{
    let mut j = from;
    while j <= cs.len() && pat.len() <= cs.len() - j
        invariant
            from <= j,
            pat@.len() > 0,
            find_close(cs@, from as int, pat@) == find_close(cs@, j as int, pat@),
        decreases cs@.len() - j,
    {
        let mut k = j + pat.len();
        while k < cs.len() && (cs[k] == ' ' || cs[k] == '\t' || cs[k] == '\n' || cs[k] == '\r')
            invariant
                j + pat@.len() <= k <= cs@.len(),
                skip_tag_space(cs@, j + pat@.len()) == skip_tag_space(cs@, k as int),
            decreases cs@.len() - k,
        {
            k = k + 1;
        }
        if starts_with_ignore_case(cs, j, pat) && is_tag_name_end(cs, j + pat.len()) && k
            < cs.len() && cs[k] == '>' {
            return Some(k + 1);
        }
        j = j + 1;
    }
    None
}

/// Remove every `<script>` and `<style>` block, tags included; an
/// unclosed block runs to the end of the input.
pub fn strip_script_and_style(html: &str) -> (out: String)
    ensures
        out@ == without_script_and_style(html@),
{
    let cs = chars_of(html);
    let ghost s = cs@;
    let os: Vec<char> = vec!['<', 's', 'c', 'r', 'i', 'p', 't'];
    let ot: Vec<char> = vec!['<', 's', 't', 'y', 'l', 'e'];
    let cso: Vec<char> = vec!['<', '/', 's', 'c', 'r', 'i', 'p', 't'];
    let cst: Vec<char> = vec!['<', '/', 's', 't', 'y', 'l', 'e'];
    assert(os@ =~= open_script());
    assert(ot@ =~= open_style());
    assert(cso@ =~= close_script());
    assert(cst@ =~= close_style());
    let mut out: Vec<char> = Vec::new();
    let mut region_start: usize = 0;
    let mut i: usize = 0;
    while i < cs.len()
        invariant
            s == cs@,
            os@ == open_script(),
            ot@ == open_style(),
            cso@ == close_script(),
            cst@ == close_style(),
            region_start <= i <= cs@.len(),
            out@ + stripped_from(s, region_start as int, i as int) == stripped_from(s, 0, 0),
        decreases cs@.len() - i,
    {
        let is_script = starts_with_ignore_case(&cs, i, &os);
        let (name_len, close) = if is_script {
            (7usize, &cso)
        } else if starts_with_ignore_case(&cs, i, &ot) {
            (6usize, &cst)
        } else {
            (0usize, &cso)
        };
        if name_len == 0 || !is_tag_name_end(&cs, i + name_len) {
            i = i + 1;
            continue;
        }
        let ghost out0 = out@;
        let mut m = region_start;
        while m < i
            invariant
                region_start <= m <= i <= cs@.len(),
                s == cs@,
                out@ == out0 + s.subrange(region_start as int, m as int),
            decreases i - m,
        {
            out.push(cs[m]);
            m = m + 1;
            assert(out@ =~= out0 + s.subrange(region_start as int, m as int));
        }
        match find_close_tag(&cs, i + name_len, close) {
            Some(end) => {
                proof {
                    lemma_find_close_after(s, (i + name_len) as int, close@);
                }
                region_start = end;
                i = end;
            },
            None => {
                assert(out@ + stripped_from(s, cs@.len() as int, cs@.len() as int) =~= out@);
                region_start = cs.len();
                i = cs.len();
            },
        }
    }
    assert(stripped_from(s, region_start as int, i as int) == s.subrange(
        region_start as int,
        s.len() as int,
    ));
    let mut m = region_start;
    while m < cs.len()
        invariant
            region_start <= m <= cs@.len(),
            s == cs@,
            out@ + s.subrange(m as int, s.len() as int) == stripped_from(s, 0, 0),
        decreases cs@.len() - m,
    {
        let ghost before = out@;
        out.push(cs[m]);
        assert(s.subrange(m as int, s.len() as int) =~= seq![cs@[m as int]] + s.subrange(
            m + 1,
            s.len() as int,
        ));
        assert(out@ =~= before + seq![cs@[m as int]]);
        m = m + 1;
    }
    assert(out@ =~= stripped_from(s, 0, 0));
    string_from_chars(&out)
}

/// Remove script and style blocks, then render the rest as plain text
/// with `html2text` (unbounded width). Refused when `html2text` reports
/// an error.
pub fn html_to_text(html: &str) -> (r: Result<String>)
    ensures
        r is Ok <==> rendered_text_of(without_script_and_style(html@)) is Some,
        r matches Ok(t) ==> rendered_text_of(without_script_and_style(html@)) == Some(t@),
        r matches Err(e) ==> e is InvalidInput && "html parse error: "@.is_prefix_of(
            e->InvalidInput_0@,
        ),
{
    let cleaned = strip_script_and_style(html);
    match render_html(cleaned.as_str()) {
        Ok(t) => Ok(t),
        Err(e) => {
            let mut m = String::new();
            push_str(&mut m, "html parse error: ");
            push_str(&mut m, html_error_text(&e).as_str());
            Err(Error::InvalidInput(m))
        },
    }
}

} // verus!
