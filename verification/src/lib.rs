//! Reconstruction of playable asset trees from legacy multimedia-title disc
//! images: title detection, extraction orchestration, content-addressed
//! deduplication, filename-encoded path reconstruction, and the
//! transparency/upscale image compositor.

pub mod dedup;
pub mod detect;
pub mod digest;
pub mod files;
pub mod game_extractor;
pub mod compositor;
pub mod paths;
pub mod pipeline;
pub mod raster;
pub mod text;

use vstd::prelude::*;

verus! {

} // verus!
