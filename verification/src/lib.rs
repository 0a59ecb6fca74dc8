//! Batch conversion of documents into blacked-out rasters.
//!
//! Every page of an input document is rasterized, every non-white pixel is
//! forced to pure black while exactly-white pixels are preserved, and the
//! thresholded pages are reassembled into output artifacts. The modules here
//! hold the verified core: the pixel transform, path handling, input
//! discovery, output planning, page assembly, and batch aggregation.

pub mod assemble;
pub mod discover;
pub mod naming;
pub mod paths;
pub mod plan;
pub mod raster;
