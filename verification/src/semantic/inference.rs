//! The decisions around one local inference run that involve no floating
//! point: how much of the tokenized input is fed, which graph inputs are
//! supplied, which output is read and how it is laid out, and the
//! embedding width of a loaded model. The tokenizer and the ONNX runtime
//! run outside this crate and hand these functions plain values.

use vstd::prelude::*;

use crate::error::{invalid_input, Error, Result};
use crate::text::{decimal, decimal_string, push_str, str_eq, views};

verus! {

/// The number of token ids fed to the model: the tokenized length capped
/// at `max_seq_len`. Refused when that leaves nothing.
pub fn sequence_len(n_ids: usize, max_seq_len: usize) -> (r: Result<usize>)
    ensures
        ({
            let take = if n_ids < max_seq_len {
                n_ids
            } else {
                max_seq_len
            };
            &&& r is Ok <==> take > 0
            &&& r matches Ok(k) ==> k == take
            &&& r matches Err(e) ==> e is InvalidInput
        }),
{
    let take = if n_ids < max_seq_len {
        n_ids
    } else {
        max_seq_len
    };
    if take == 0 {
        return Err(invalid_input("tokenizer produced empty sequence"));
    }
    Ok(take)
}

/// The first `take` values of `vals`, widened to `i64`.
pub fn widen_prefix(vals: &[u32], take: usize) -> (out: Vec<i64>)
    requires
        take <= vals@.len(),
    ensures
        out@.len() == take,
        forall|i: int| 0 <= i < take ==> out@[i] == vals@[i] as i64,
{
    let mut out: Vec<i64> = Vec::new();
    let mut i: usize = 0;
    while i < take
        invariant
            take <= vals@.len(),
            i <= take,
            out@.len() == i,
            forall|j: int| 0 <= j < i ==> out@[j] == vals@[j] as i64,
        decreases take - i,
    {
        out.push(vals[i] as i64);
        i = i + 1;
    }
    out
}

/// A graph input name this crate knows how to feed.
pub open spec fn known_input(n: Seq<char>) -> bool {
    n == "input_ids"@ || n == "attention_mask"@ || n == "token_type_ids"@
}

/// The message for an unexpected graph input.
pub open spec fn unexpected_input_message(name: Seq<char>) -> Seq<char> {
    "unexpected ONNX input `"@ + name
        + "` (expected input_ids/attention_mask/token_type_ids)"@
}

/// Check the graph's input names. Refused, naming the first unknown input,
/// when one is not among `input_ids`, `attention_mask`,
/// `token_type_ids`; otherwise says whether `token_type_ids` is wanted.
pub fn check_input_names(names: &Vec<String>) -> (r: Result<bool>)
    ensures
        r is Ok <==> forall|i: int| 0 <= i < names@.len() ==> known_input(#[trigger] names@[i]@),
        r matches Ok(b) ==> (b <==> exists|i: int|
            0 <= i < names@.len() && #[trigger] names@[i]@ == "token_type_ids"@),
        r matches Err(e) ==> exists|i: int|
            0 <= i < names@.len() && !known_input(#[trigger] names@[i]@) && (forall|j: int|
                0 <= j < i ==> known_input(names@[j]@)) && e is Onnx
                && e->Onnx_0@ == unexpected_input_message(names@[i]@),
{
    let mut needs_token_type = false;
    let mut i: usize = 0;
    while i < names.len()
        invariant
            i <= names@.len(),
            forall|j: int| 0 <= j < i ==> known_input(#[trigger] names@[j]@),
            needs_token_type <==> exists|j: int|
                0 <= j < i && #[trigger] names@[j]@ == "token_type_ids"@,
        decreases names@.len() - i,
    {
        let n = names[i].as_str();
        let is_tt = str_eq(n, "token_type_ids");
        if !(str_eq(n, "input_ids") || str_eq(n, "attention_mask") || is_tt) {
            let mut m = String::new();
            push_str(&mut m, "unexpected ONNX input `");
            push_str(&mut m, n);
            push_str(&mut m, "` (expected input_ids/attention_mask/token_type_ids)");
            assert(m@ == unexpected_input_message(names@[i as int]@));
            return Err(Error::Onnx(m));
        }
        if is_tt {
            needs_token_type = true;
        }
        i = i + 1;
    }
    Ok(needs_token_type)
}

/// The output read from a run: the first of `sentence_embedding`,
/// `last_hidden_state`, `pooler_output` that the model produces, else its
/// first output; none when it produces nothing.
pub open spec fn chosen_output(names: Seq<Seq<char>>) -> Option<Seq<char>> {
    if names.contains("sentence_embedding"@) {
        Some("sentence_embedding"@)
    } else if names.contains("last_hidden_state"@) {
        Some("last_hidden_state"@)
    } else if names.contains("pooler_output"@) {
        Some("pooler_output"@)
    } else if names.len() > 0 {
        Some(names[0])
    } else {
        None
    }
}

/// Whether `names` holds `want`.
fn holds_name(names: &Vec<String>, want: &str) -> (b: bool)
    ensures
        b == views(names@).contains(want@),
{
    let ghost v = views(names@);
    let mut i: usize = 0;
    while i < names.len()
        invariant
            v == views(names@),
            i <= names@.len(),
            forall|j: int| 0 <= j < i ==> v[j] != want@,
        decreases names@.len() - i,
    {
        if str_eq(names[i].as_str(), want) {
            assert(v[i as int] == want@);
            return true;
        }
        i = i + 1;
    }
    false
}

/// Pick the output to read, given the output names in the order the run
/// reports them. Refused when there is none.
pub fn choose_output(names: &Vec<String>) -> (r: Result<String>)
    ensures
        r is Ok <==> chosen_output(views(names@)) is Some,
        r matches Ok(n) ==> chosen_output(views(names@)) == Some(n@),
        r matches Err(e) ==> e is Onnx && e->Onnx_0@ == "model produced no outputs"@,
{
    let mut out = String::new();
    if holds_name(names, "sentence_embedding") {
        push_str(&mut out, "sentence_embedding");
    } else if holds_name(names, "last_hidden_state") {
        push_str(&mut out, "last_hidden_state");
    } else if holds_name(names, "pooler_output") {
        push_str(&mut out, "pooler_output");
    } else if names.len() > 0 {
        push_str(&mut out, names[0].as_str());
    } else {
        let mut m = String::new();
        push_str(&mut m, "model produced no outputs");
        return Err(Error::Onnx(m));
    }
    Ok(out)
}

/// How an output tensor is laid out.
#[derive(Copy, Clone, Debug, PartialEq, Eq, Structural)]
pub enum OutputLayout {
    /// `[1, hidden]`: one vector, already pooled.
    Pooled {
        /// Width of the vector.
        hidden: usize,
    },
    /// `[1, seq_len, hidden]`: one vector per token, still to be pooled.
    PerToken {
        /// Width of each vector.
        hidden: usize,
    },
}

/// A reported dimension as a size: a negative (symbolic) one, or one too
/// large for `usize`, counts as zero.
pub open spec fn dim_size(d: i64) -> usize {
    if 0 <= d <= usize::MAX {
        d as usize
    } else {
        0
    }
}

/// The layout of an output with these dimensions, or `None` when its rank
/// is neither two nor three.
pub open spec fn spec_layout(dims: Seq<i64>) -> Option<OutputLayout> {
    if dims.len() == 2 {
        Some(OutputLayout::Pooled { hidden: dim_size(dims[1]) })
    } else if dims.len() == 3 {
        Some(OutputLayout::PerToken { hidden: dim_size(dims[2]) })
    } else {
        None
    }
}

/// `dim_size` in executable form.
fn to_size(d: i64) -> (s: usize)
    ensures
        s == dim_size(d),
{
    if d < 0 {
        0
    } else if (d as u64) <= (usize::MAX as u64) {
        d as usize
    } else {
        0
    }
}

/// Read the layout of the chosen output. Refused for a rank other than
/// two or three, and for a pooled output of width zero.
pub fn output_layout(dims: &Vec<i64>) -> (r: Result<OutputLayout>)
    ensures
        r is Ok <==> spec_layout(dims@) is Some && spec_layout(dims@) != Some(
            OutputLayout::Pooled { hidden: 0 },
        ),
        r matches Ok(l) ==> spec_layout(dims@) == Some(l),
        r matches Err(e) ==> e is Onnx && (dims@.len() == 2 ==> e->Onnx_0@ == "zero-hidden output"@)
            && (dims@.len() != 2 && dims@.len() != 3 ==> e->Onnx_0@ == "unsupported output rank: "@
            + decimal(dims@.len())),
{
    if dims.len() == 2 {
        let hidden = to_size(dims[1]);
        if hidden == 0 {
            let mut m = String::new();
            push_str(&mut m, "zero-hidden output");
            return Err(Error::Onnx(m));
        }
        Ok(OutputLayout::Pooled { hidden })
    } else if dims.len() == 3 {
        Ok(OutputLayout::PerToken { hidden: to_size(dims[2]) })
    } else {
        let mut m = String::new();
        push_str(&mut m, "unsupported output rank: ");
        push_str(&mut m, decimal_string(dims.len() as u64).as_str());
        Err(Error::Onnx(m))
    }
}

/// The last dimension of the first output, scanning from `i`, that is a
/// tensor whose last dimension is positive.
pub open spec fn first_fixed_width(shapes: Seq<Option<Seq<i64>>>, i: int) -> Option<i64>
    decreases shapes.len() - i,
{
    if i < 0 || i >= shapes.len() {
        None
    } else {
        match shapes[i] {
            Some(d) => if d.len() > 0 && d.last() > 0 {
                Some(d.last())
            } else {
                first_fixed_width(shapes, i + 1)
            },
            None => first_fixed_width(shapes, i + 1),
        }
    }
}

/// The output shapes as sequences (`None` for an output that is not a
/// tensor).
pub open spec fn shape_views(shapes: Seq<Option<Vec<i64>>>) -> Seq<Option<Seq<i64>>> {
    shapes.map_values(
        |o: Option<Vec<i64>>|
            match o {
                Some(v) => Some(v@),
                None => None,
            },
    )
}

/// The embedding width of a model, from the shapes of its outputs in
/// order: the last dimension of the first tensor output whose last
/// dimension is positive, else 384 (the width of `bge-small`). Refused
/// when that dimension does not fit in `usize`.
pub fn infer_hidden_dim(shapes: &Vec<Option<Vec<i64>>>) -> (r: Result<usize>)
    ensures
        ({
            let w = first_fixed_width(shape_views(shapes@), 0);
            &&& (w is None ==> r == Ok::<usize, Error>(384))
            &&& (w matches Some(v) ==> (v <= usize::MAX ==> r == Ok::<usize, Error>(v as usize)))
            &&& (w matches Some(v) ==> (v > usize::MAX ==> (r matches Err(e) && e is Onnx)))
        }),
{
    let ghost sv = shape_views(shapes@);
    let mut i: usize = 0;
    while i < shapes.len()
        invariant
            sv == shape_views(shapes@),
            i <= shapes@.len(),
            first_fixed_width(sv, 0) == first_fixed_width(sv, i as int),
        decreases shapes@.len() - i,
    {
        match &shapes[i] {
            Some(dims) => {
                if dims.len() > 0 && dims[dims.len() - 1] > 0 {
                    let last = dims[dims.len() - 1];
                    if (last as u64) <= (usize::MAX as u64) {
                        return Ok(last as usize);
                    }
                    let mut m = String::new();
                    push_str(&mut m, "hidden dim out of range");
                    return Err(Error::Onnx(m));
                }
            },
            None => {},
        }
        i = i + 1;
    }
    Ok(384)
}

/// The text fed to the model: `input` after the role prefix (query or
/// document) when the model has one.
pub fn prefixed(prefix: &Option<String>, input: &str) -> (s: String)
    ensures
        s@ == match prefix {
            Some(p) => p@ + input@,
            None => input@,
        },
{
    let mut s = String::new();
    match prefix {
        Some(p) => push_str(&mut s, p.as_str()),
        None => {},
    }
    push_str(&mut s, input);
    s
}

} // verus!
