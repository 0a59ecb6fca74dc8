//! Document assembly.
//!
//! A unit of work takes the rasterized pages of its input documents in order,
//! thresholds every page, and accumulates the results into one output
//! document: pages appended in document order, then page order, with no
//! reordering and no deduplication. The document is built fully in memory and
//! persisted once by the caller.

use vstd::prelude::*;
use crate::raster::{Raster, RasterView, spec_threshold, threshold};

verus! {

/// The rasterized pages of one input document, in original page order.
pub struct SourceDoc {
    pub pages: Vec<Raster>,
}

/// An output document being accumulated: an ordered sequence of pages, each
/// backed by one full-page raster.
pub struct OutputDocument {
    pub pages: Vec<Raster>,
}

/// Every page of `s`, thresholded, in order.
pub open spec fn thresholded_views(s: Seq<RasterView>) -> Seq<RasterView> {
    Seq::new(s.len(), |i: int| spec_threshold(s[i]))
}

/// The pages of a sequence of source documents, concatenated in document
/// order then page order.
pub open spec fn concat_source_views(docs: Seq<SourceDoc>) -> Seq<RasterView>
    decreases docs.len(),
{
    if docs.len() == 0 {
        Seq::empty()
    } else {
        concat_source_views(docs.drop_last()) + docs.last().pages.deep_view()
    }
}

/// Creates an empty output document.
pub fn new_document() -> (d: OutputDocument)
    ensures
        d.pages@.len() == 0,
{
    OutputDocument { pages: Vec::new() }
}

/// Appends one page at the end of an output document; earlier pages are
/// untouched.
pub fn append_page(doc: &mut OutputDocument, image: Raster)
    ensures
        final(doc).pages@ == old(doc).pages@.push(image),
{
    doc.pages.push(image);
}

/// A single document contributes exactly its own pages, in order.
pub proof fn lemma_concat_single(d: SourceDoc)
    ensures
        concat_source_views(seq![d]) == d.pages.deep_view(),
{
    assert(concat_source_views(Seq::<SourceDoc>::empty()) =~= Seq::<RasterView>::empty());
    assert(seq![d].drop_last() =~= Seq::<SourceDoc>::empty());
    assert(seq![d].last() == d);
    assert(concat_source_views(seq![d]) =~= d.pages.deep_view());
}

/// A unit holding one document assembles into exactly that document's pages,
/// thresholded, in original page order: as many output pages as source pages.
pub proof fn lemma_single_document_unit(d: SourceDoc)
    ensures
        thresholded_views(concat_source_views(seq![d])).len() == d.pages@.len(),
        forall|i: int| 0 <= i < d.pages@.len() ==> thresholded_views(concat_source_views(seq![d]))[
            i
        ] == spec_threshold(d.pages@[i]@),
{
    lemma_concat_single(d);
}

/// A concatenated unit over three documents carries the first document's
/// pages, then the second's, then the third's, in that order.
pub proof fn lemma_concat_three(a: SourceDoc, b: SourceDoc, c: SourceDoc)
    ensures
        concat_source_views(seq![a, b, c]) == a.pages.deep_view() + b.pages.deep_view()
            + c.pages.deep_view(),
{
    lemma_concat_single(a);
    assert(seq![a, b].drop_last() =~= seq![a]);
    assert(seq![a, b].last() == b);
    assert(concat_source_views(seq![a, b]) == a.pages.deep_view() + b.pages.deep_view());
    assert(seq![a, b, c].drop_last() =~= seq![a, b]);
    assert(seq![a, b, c].last() == c);
}

/// Pushing one page onto a page sequence pushes its thresholded page onto the
/// thresholded sequence.
proof fn lemma_thresholded_snoc(s: Seq<RasterView>, x: RasterView)
    ensures
        thresholded_views(s.push(x)) == thresholded_views(s).push(spec_threshold(x)),
{
    assert(thresholded_views(s.push(x)) =~= thresholded_views(s).push(spec_threshold(x)));
}

/// Runs one unit of work in memory: thresholds every page of every input
/// document and accumulates the results into one output document, pages in
/// document order then page order. The output holds exactly one page per
/// source page.
pub fn assemble_unit(docs: &Vec<SourceDoc>) -> (out: OutputDocument)
    ensures
        out.pages.deep_view() == thresholded_views(concat_source_views(docs@)),
{
    let nd = docs.len();
    let mut out = OutputDocument { pages: Vec::new() };
    let mut d: usize = 0;
    proof {
        assert(out.pages.deep_view() =~= thresholded_views(concat_source_views(docs@.take(0))));
    }
    while d < nd
        invariant
            nd == docs@.len(),
            d <= nd,
            out.pages.deep_view() == thresholded_views(concat_source_views(docs@.take(d as int))),
        decreases nd - d,
    {
        let doc = &docs[d];
        let np = doc.pages.len();
        let ghost base = concat_source_views(docs@.take(d as int));
        let ghost dv = doc.pages.deep_view();
        let mut p: usize = 0;
        proof {
            assert(base + dv.take(0) =~= base);
        }
        while p < np
            invariant
                nd == docs@.len(),
                d < nd,
                np == doc.pages@.len(),
                dv == doc.pages.deep_view(),
                dv == docs@[d as int].pages.deep_view(),
                base == concat_source_views(docs@.take(d as int)),
                p <= np,
                out.pages.deep_view() == thresholded_views(base + dv.take(p as int)),
            decreases np - p,
        {
            let ghost old_dv = out.pages.deep_view();
            let t = threshold(&doc.pages[p]);
            proof {
                assert(dv[p as int] == doc.pages@[p as int]@);
            }
            out.pages.push(t);
            proof {
                assert(out.pages.deep_view() =~= old_dv.push(t@));
                assert((base + dv.take(p + 1)) =~= (base + dv.take(p as int)).push(dv[p as int]));
                lemma_thresholded_snoc(base + dv.take(p as int), dv[p as int]);
                assert(out.pages.deep_view() == thresholded_views(base + dv.take(p + 1)));
            }
            p += 1;
        }
        proof {
            assert(dv.take(np as int) =~= dv);
            assert(docs@.take(d + 1).drop_last() =~= docs@.take(d as int));
            assert(docs@.take(d + 1).last() == docs@[d as int]);
            assert(concat_source_views(docs@.take(d + 1)) == base + dv);
        }
        d += 1;
    }
    proof {
        assert(docs@.take(nd as int) =~= docs@);
    }
    out
}

} // verus!
