//! Input discovery.
//!
//! A single-file input is the working set by itself. For a directory input
//! the caller hands over the directory's entries as plain paths; discovery
//! keeps exactly those that name supported documents, optionally narrows them
//! to file names starting with a literal prefix, and sorts the survivors
//! lexicographically so that batch order is deterministic.

use vstd::prelude::*;
use itertools::Itertools;
use crate::paths::{
    spec_is_pdf_path, spec_file_name, spec_starts_with, lex_le, is_pdf_path,
    file_name_starts_with,
};

verus! {

/// Whether a directory entry is selected: it names a supported document and,
/// when a prefix filter is configured, its file name starts with that prefix.
pub open spec fn spec_selected(p: Seq<char>, pre: Option<Seq<char>>) -> bool {
    spec_is_pdf_path(p) && match pre {
        Some(q) => spec_starts_with(spec_file_name(p), q),
        None => true,
    }
}

/// The subsequence of `s` whose elements are selected, in input order.
pub open spec fn spec_selection(s: Seq<Seq<char>>, pre: Option<Seq<char>>) -> Seq<Seq<char>>
    decreases s.len(),
{
    if s.len() == 0 {
        Seq::empty()
    } else if spec_selected(s.last(), pre) {
        spec_selection(s.drop_last(), pre).push(s.last())
    } else {
        spec_selection(s.drop_last(), pre)
    }
}

/// Relies on `itertools::Itertools::sorted`: it returns the same elements in
/// ascending order by `Ord`. `Ord` on `String` is lexicographic over the
/// UTF-8 bytes, which orders exactly as `lex_le` over the code points.
#[verifier::external_body]
fn sort_strings(v: Vec<String>) -> (r: Vec<String>)
    ensures
        r.deep_view().to_multiset() == v.deep_view().to_multiset(),
        forall|i: int, j: int| 0 <= i < j < r.deep_view().len() ==> lex_le(
            r.deep_view()[i],
            r.deep_view()[j],
        ),
{
    v.into_iter().sorted().collect()
}

/// Discovers the working set inside a directory: keeps the entries that name
/// supported documents (and, when a prefix filter is set, whose file name
/// starts with it), sorted lexicographically.
pub fn discover_in_dir(entries: &Vec<String>, filter_prefix: &Option<String>) -> (r: Vec<String>)
    ensures
        r.deep_view().to_multiset() == spec_selection(
            entries.deep_view(),
            filter_prefix.deep_view(),
        ).to_multiset(),
        forall|i: int, j: int| 0 <= i < j < r.deep_view().len() ==> lex_le(
            r.deep_view()[i],
            r.deep_view()[j],
        ),
{
    let ghost dv = entries.deep_view();
    let ghost pv = filter_prefix.deep_view();
    let n = entries.len();
    let mut kept: Vec<String> = Vec::new();
    let mut i: usize = 0;
    while i < n
        invariant
            n == entries@.len(),
            dv == entries.deep_view(),
            pv == filter_prefix.deep_view(),
            i <= n,
            kept.deep_view() == spec_selection(dv.take(i as int), pv),
        decreases n - i,
    {
        let e = &entries[i];
        proof {
            assert(dv[i as int] == entries@[i as int]@);
        }
        let mut sel = is_pdf_path(e);
        if sel {
            match filter_prefix {
                Some(p) => {
                    sel = file_name_starts_with(e, p);
                },
                None => {},
            }
        }
        proof {
            assert(sel == spec_selected(dv[i as int], pv));
            assert(dv.take(i + 1).drop_last() =~= dv.take(i as int));
            assert(dv.take(i + 1).last() == dv[i as int]);
        }
        if sel {
            kept.push(e.clone());
            proof {
                assert(kept.deep_view() =~= spec_selection(dv.take(i + 1), pv));
            }
        } else {
            proof {
                assert(kept.deep_view() =~= spec_selection(dv.take(i + 1), pv));
            }
        }
        i += 1;
    }
    proof {
        assert(dv.take(n as int) =~= dv);
    }
    sort_strings(kept)
}

/// Discovers the whole working set: a single-file input stands alone; a
/// directory input is narrowed and ordered by `discover_in_dir`.
pub fn discover(
    input_path: &String,
    input_is_dir: bool,
    entries: &Vec<String>,
    filter_prefix: &Option<String>,
) -> (r: Vec<String>)
    ensures
        !input_is_dir ==> r.deep_view() == seq![input_path@],
        input_is_dir ==> r.deep_view().to_multiset() == spec_selection(
            entries.deep_view(),
            filter_prefix.deep_view(),
        ).to_multiset() && forall|i: int, j: int|
            0 <= i < j < r.deep_view().len() ==> lex_le(r.deep_view()[i], r.deep_view()[j]),
{
    if input_is_dir {
        discover_in_dir(entries, filter_prefix)
    } else {
        let mut one: Vec<String> = Vec::new();
        one.push(input_path.clone());
        proof {
            assert(one.deep_view() =~= seq![input_path@]);
        }
        one
    }
}

} // verus!
