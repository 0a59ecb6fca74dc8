//! Output planning and batch aggregation.
//!
//! The output path's shape selects the mode: a path without an extension is a
//! directory target and every input produces its own artifact inside it
//! (per-input mode); a path with an extension is a single artifact into which
//! all inputs are concatenated. Aggregation turns the per-unit outcomes into
//! the batch exit code: zero exactly when nothing failed.

use vstd::prelude::*;
use crate::paths::{spec_has_extension, spec_file_name, spec_join, has_extension, file_name,
    join_path};

verus! {

/// How discovered inputs map to output artifacts.
#[derive(Clone, Copy, PartialEq, Eq, Structural, Debug)]
pub enum OutputMode {
    /// Each input document produces its own artifact inside the output
    /// directory, named after the input's file name.
    PerInput,
    /// All input documents are concatenated into one artifact at exactly the
    /// given output path.
    Concatenated,
}

/// What can go wrong while processing one unit of work.
#[derive(Clone, Copy, PartialEq, Eq, Structural, Debug)]
pub enum BatchError {
    /// The input path was rejected before any processing began.
    Validation,
    /// A document could not be opened (corrupt, wrong password).
    Open,
    /// A page could not be rasterized.
    Render,
    /// The output artifact could not be persisted.
    Write,
    /// A page raster could not be encoded to the output image format.
    Encoding,
}

/// The outcome of one unit of work: which input it was, and whether it
/// succeeded.
pub struct BatchResult {
    pub input: String,
    pub outcome: Result<(), BatchError>,
}

/// One unit of work: the ordered inputs that feed one output artifact.
pub struct Unit {
    pub inputs: Vec<String>,
    pub output: String,
}

/// The output mode an output path resolves to.
pub open spec fn spec_output_mode(out: Seq<char>) -> OutputMode {
    if spec_has_extension(out) {
        OutputMode::Concatenated
    } else {
        OutputMode::PerInput
    }
}

/// Resolves the output mode from the output path alone: an extension means
/// one concatenated artifact, no extension means a directory of per-input
/// artifacts.
pub fn resolve_output_mode(output_path: &String) -> (m: OutputMode)
    ensures
        m == spec_output_mode(output_path@),
{
    if has_extension(output_path) {
        OutputMode::Concatenated
    } else {
        OutputMode::PerInput
    }
}

/// Clones a list of paths, keeping the character sequences.
fn clone_strings(v: &Vec<String>) -> (r: Vec<String>)
    ensures
        r.deep_view() == v.deep_view(),
{
    let n = v.len();
    let mut r: Vec<String> = Vec::new();
    let mut i: usize = 0;
    while i < n
        invariant
            n == v@.len(),
            i <= n,
            r@.len() == i as nat,
            forall|k: int| 0 <= k < i ==> r.deep_view()[k] == v.deep_view()[k],
        decreases n - i,
    {
        r.push(v[i].clone());
        i += 1;
    }
    proof {
        assert(r.deep_view() =~= v.deep_view());
    }
    r
}

/// Plans the units of work. In concatenated mode (output path with an
/// extension) there is exactly one unit holding all inputs in order, and its
/// artifact is written at exactly the given output path. In per-input mode
/// (no extension) there is one unit per input, each holding that input alone,
/// with its artifact placed inside the output directory under the input's
/// file name.
pub fn plan_units(inputs: &Vec<String>, output_path: &String) -> (units: Vec<Unit>)
    ensures
        spec_output_mode(output_path@) == OutputMode::Concatenated ==> units@.len() == 1
            && units@[0].inputs.deep_view() == inputs.deep_view() && units@[0].output@
            == output_path@,
        spec_output_mode(output_path@) == OutputMode::PerInput ==> units@.len()
            == inputs@.len() && forall|i: int|
            0 <= i < inputs@.len() ==> units@[i].inputs.deep_view() == seq![
                inputs.deep_view()[i],
            ] && units@[i].output@ == spec_join(output_path@, spec_file_name(
                inputs.deep_view()[i],
            )),
{
    if has_extension(output_path) {
        let mut units: Vec<Unit> = Vec::new();
        units.push(Unit { inputs: clone_strings(inputs), output: output_path.clone() });
        units
    } else {
        let ghost dv = inputs.deep_view();
        let n = inputs.len();
        let mut units: Vec<Unit> = Vec::new();
        let mut i: usize = 0;
        while i < n
            invariant
                n == inputs@.len(),
                dv == inputs.deep_view(),
                i <= n,
                units@.len() == i as nat,
                forall|k: int| 0 <= k < i ==> units@[k].inputs.deep_view() == seq![dv[k]]
                    && units@[k].output@ == spec_join(output_path@, spec_file_name(dv[k])),
            decreases n - i,
        {
            let input = &inputs[i];
            proof {
                assert(dv[i as int] == inputs@[i as int]@);
            }
            let name = file_name(input);
            let out = join_path(output_path, &name);
            let mut one: Vec<String> = Vec::new();
            one.push(input.clone());
            proof {
                assert(one.deep_view() =~= seq![dv[i as int]]);
            }
            units.push(Unit { inputs: one, output: out });
            i += 1;
        }
        units
    }
}

/// How many units of a batch failed.
pub open spec fn spec_failure_count(s: Seq<BatchResult>) -> nat
    decreases s.len(),
{
    if s.len() == 0 {
        0
    } else {
        spec_failure_count(s.drop_last()) + if s.last().outcome is Err {
            1nat
        } else {
            0nat
        }
    }
}

/// No failures means every unit succeeded, and the other way round.
pub proof fn lemma_failure_count_zero(s: Seq<BatchResult>)
    ensures
        spec_failure_count(s) == 0 <==> forall|i: int| 0 <= i < s.len() ==> s[i].outcome is Ok,
    decreases s.len(),
{
    if s.len() > 0 {
        lemma_failure_count_zero(s.drop_last());
        if spec_failure_count(s) == 0 {
            assert forall|i: int| 0 <= i < s.len() implies s[i].outcome is Ok by {
                if i < s.len() - 1 {
                    assert(s.drop_last()[i] == s[i]);
                }
            }
        } else {
            if !(s.last().outcome is Err) {
                let w = choose|w: int|
                    0 <= w < s.len() - 1 && !(s.drop_last()[w].outcome is Ok);
                assert(s[w] == s.drop_last()[w]);
            }
        }
    }
}

/// Counts the failed units of a batch.
pub fn count_failures(results: &Vec<BatchResult>) -> (n: usize)
    ensures
        n as nat == spec_failure_count(results@),
{
    let len = results.len();
    let mut n: usize = 0;
    let mut i: usize = 0;
    while i < len
        invariant
            len == results@.len(),
            i <= len,
            n as nat == spec_failure_count(results@.take(i as int)),
            n <= i,
        decreases len - i,
    {
        proof {
            assert(results@.take(i + 1).drop_last() =~= results@.take(i as int));
            assert(results@.take(i + 1).last() == results@[i as int]);
        }
        if results[i].outcome.is_err() {
            n += 1;
        }
        i += 1;
    }
    proof {
        assert(results@.take(len as int) =~= results@);
    }
    n
}

/// The batch exit code: zero exactly when every unit succeeded, one
/// otherwise.
pub fn batch_exit_code(results: &Vec<BatchResult>) -> (c: u8)
    ensures
        c == 0 <==> spec_failure_count(results@) == 0,
        c == 0 || c == 1,
{
    let n = count_failures(results);
    if n > 0 {
        1
    } else {
        0
    }
}

} // verus!
